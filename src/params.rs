use vstd::prelude::*;

use crate::error::StoolapError;
use crate::text::{chars_of, string_from_chars};
use crate::rows::values_wf;
use crate::value::{py_to_value, encode_spec, HostValue, SqlValue};

verus! {

/// A host parameter collection, as the host classifies it.
#[derive(Clone, Debug)]
pub enum HostParams {
    /// No parameters given, or the host's null.
    Absent,
    /// An ordered sequence (list or tuple): bound by position.
    Sequence(Vec<HostValue>),
    /// A key-value mapping, in the host's iteration order: bound by name.
    Mapping(Vec<(String, HostValue)>),
    /// Anything else; carries the host's name of the type.
    Other(String),
}

/// Parameters ready for the engine.
#[derive(Clone, Debug)]
pub enum BindParams {
    /// Values bound to `$1`, `$2`, ... in order.
    Positional(Vec<SqlValue>),
    /// Values bound by name; the names are unique.
    Named(Vec<(String, SqlValue)>),
}

/// `s` without the run of `c` that it starts with.
pub open spec fn strip_leading(s: Seq<char>, c: char) -> Seq<char>
    decreases s.len(),
{
    if s.len() > 0 && s[0] == c {
        strip_leading(s.drop_first(), c)
    } else {
        s
    }
}

/// A parameter name without its leading markers: first the run of `:`, then of `@`,
/// then of `$`.
pub open spec fn normalized_name(s: Seq<char>) -> Seq<char> {
    strip_leading(strip_leading(strip_leading(s, ':'), '@'), '$')
}

/// The position in `v` after the run of `c` that starts at `start`.
fn skip_run(v: &Vec<char>, start: usize, c: char) -> (r: usize)
    requires
        start <= v@.len(),
    ensures
        start <= r <= v@.len(),
        v@.skip(r as int) == strip_leading(v@.skip(start as int), c),
    decreases v@.len() - start,
{
    if start < v.len() && v[start] == c {
        assert(v@.skip(start as int).drop_first() =~= v@.skip(start + 1));
        skip_run(v, start + 1, c)
    } else {
        start
    }
}

/// The name under which a parameter key binds: the key without leading `:`, `@`
/// and `$` markers.
pub fn normalize_name(key: &str) -> (r: String)
    ensures
        r@ == normalized_name(key@),
{
    let chars = chars_of(key);
    assert(chars@.skip(0) =~= chars@);
    let a = skip_run(&chars, 0, ':');
    let b = skip_run(&chars, a, '@');
    let c = skip_run(&chars, b, '$');
    let mut rest: Vec<char> = Vec::new();
    let mut i: usize = c;
    while i < chars.len()
        invariant
            c <= i <= chars@.len(),
            rest@ == chars@.subrange(c as int, i as int),
        decreases chars@.len() - i,
    {
        rest.push(chars[i]);
        i = i + 1;
    }
    assert(rest@ =~= chars@.skip(c as int));
    string_from_chars(&rest)
}

/// The value bound to `k` in a list of bindings: the last one under that name.
pub open spec fn lookup(s: Seq<(Seq<char>, SqlValue)>, k: Seq<char>) -> Option<SqlValue>
    decreases s.len(),
{
    if s.len() == 0 {
        None
    } else if s.last().0 == k {
        Some(s.last().1)
    } else {
        lookup(s.drop_last(), k)
    }
}

pub open spec fn keys_unique(s: Seq<(Seq<char>, SqlValue)>) -> bool {
    forall|i: int, j: int| 0 <= i < j < s.len() ==> s[i].0 != s[j].0
}

/// Every bound value is well formed.
pub open spec fn all_wf(s: Seq<(String, SqlValue)>) -> bool {
    forall|i: int| 0 <= i < s.len() ==> (#[trigger] s[i]).1.wf()
}

pub open spec fn binding_view(p: (String, SqlValue)) -> (Seq<char>, SqlValue) {
    (p.0@, p.1)
}

pub open spec fn bindings_view(s: Seq<(String, SqlValue)>) -> Seq<(Seq<char>, SqlValue)> {
    s.map_values(|p: (String, SqlValue)| binding_view(p))
}

proof fn lemma_lookup_absent(s: Seq<(Seq<char>, SqlValue)>, k: Seq<char>)
    requires
        forall|i: int| 0 <= i < s.len() ==> s[i].0 != k,
    ensures
        lookup(s, k) is None,
    decreases s.len(),
{
    if s.len() > 0 {
        lemma_lookup_absent(s.drop_last(), k);
    }
}

proof fn lemma_lookup_update(
    s: Seq<(Seq<char>, SqlValue)>,
    j: int,
    v: SqlValue,
    k: Seq<char>,
)
    requires
        keys_unique(s),
        0 <= j < s.len(),
    ensures
        lookup(s.update(j, (s[j].0, v)), k) == (if k == s[j].0 {
            Some(v)
        } else {
            lookup(s, k)
        }),
    decreases s.len(),
{
    let t = s.update(j, (s[j].0, v));
    if j < s.len() - 1 {
        assert(t.drop_last() =~= s.drop_last().update(j, (s[j].0, v)));
        lemma_lookup_update(s.drop_last(), j, v, k);
    } else {
        assert(t.drop_last() =~= s.drop_last());
        if k != s[j].0 {
            assert(lookup(s, k) == lookup(s.drop_last(), k));
        }
    }
}

/// Binds `key` to `v` in `list`: replaces the value of an entry with that name, or
/// appends one. Names stay unique; the last binding of a name wins.
fn put_binding(list: &mut Vec<(String, SqlValue)>, key: String, v: SqlValue)
    requires
        keys_unique(bindings_view(old(list)@)),
        all_wf(old(list)@),
        v.wf(),
    ensures
        keys_unique(bindings_view(final(list)@)),
        all_wf(final(list)@),
        forall|k: Seq<char>|
            lookup(bindings_view(final(list)@), k) == (if k == key@ {
                Some(v)
            } else {
                lookup(bindings_view(old(list)@), k)
            }),
{
    let ghost s = bindings_view(list@);
    let mut j: usize = 0;
    while j < list.len()
        invariant
            s == bindings_view(list@),
            list@ == old(list)@,
            v.wf(),
            keys_unique(s),
            all_wf(list@),
            j <= list@.len(),
            forall|i: int| 0 <= i < j ==> s[i].0 != key@,
        decreases list@.len() - j,
    {
        if list[j].0 == key {
            let ghost sj = s[j as int];
            let ghost pre = list@;
            let ghost vv = v;
            list.set(j, (key, v));
            proof {
                assert(bindings_view(list@) =~= s.update(j as int, (sj.0, v)));
                assert(keys_unique(bindings_view(list@)));
                assert forall|i: int| 0 <= i < list@.len() implies (#[trigger] list@[i]).1.wf() by {
                    if i != j {
                        assert(list@[i] == pre[i]);
                        assert(pre[i].1.wf());
                    } else {
                        assert(list@[i].1 == vv);
                    }
                }
                assert forall|k: Seq<char>|
                    lookup(bindings_view(list@), k) == (if k == sj.0 {
                        Some(v)
                    } else {
                        lookup(s, k)
                    }) by {
                    lemma_lookup_update(s, j as int, v, k);
                }
            }
            return;
        }
        j = j + 1;
    }
    let ghost kv = key@;
    list.push((key, v));
    proof {
        let t = bindings_view(list@);
        assert(t =~= s.push((kv, v)));
        assert(t.drop_last() =~= s);
        lemma_lookup_absent(s, kv);
    }
}

/// The encodings of `items`, in order, or the error of the first that fails.
pub open spec fn encode_all(items: Seq<HostValue>) -> Result<Seq<SqlValue>, StoolapError>
    decreases items.len(),
{
    if items.len() == 0 {
        Ok(Seq::empty())
    } else {
        match encode_all(items.drop_last()) {
            Err(e) => Err(e),
            Ok(vs) => match encode_spec(items.last()) {
                Ok(v) => Ok(vs.push(v)),
                Err(e) => Err(e),
            },
        }
    }
}

/// The bindings of a mapping's entries, in order, with normalized names and encoded
/// values, or the error of the first value that fails.
pub open spec fn encode_entries(e: Seq<(String, HostValue)>) -> Result<
    Seq<(Seq<char>, SqlValue)>,
    StoolapError,
>
    decreases e.len(),
{
    if e.len() == 0 {
        Ok(Seq::empty())
    } else {
        match encode_entries(e.drop_last()) {
            Err(x) => Err(x),
            Ok(bs) => match encode_spec(e.last().1) {
                Ok(v) => Ok(bs.push((normalized_name(e.last().0@), v))),
                Err(x) => Err(x),
            },
        }
    }
}

/// `p` binds what `h` asks for: the same positional values, or for every name the
/// value of its last entry.
pub open spec fn parse_matches(h: HostParams, r: Result<BindParams, StoolapError>) -> bool {
    match h {
        HostParams::Absent => r matches Ok(BindParams::Positional(v)) && v@.len() == 0,
        HostParams::Sequence(items) => match encode_all(items@) {
            Ok(vs) => r matches Ok(BindParams::Positional(v)) && v@ == vs,
            Err(e) => r == Err::<BindParams, StoolapError>(e),
        },
        HostParams::Mapping(entries) => match encode_entries(entries@) {
            Ok(bs) => r matches Ok(BindParams::Named(n)) && keys_unique(bindings_view(n@))
                && forall|k: Seq<char>| lookup(bindings_view(n@), k) == lookup(bs, k),
            Err(e) => r == Err::<BindParams, StoolapError>(e),
        },
        HostParams::Other(_) => r == Err::<BindParams, StoolapError>(StoolapError::BadParameters),
    }
}

/// Encodes positional values in order; fails with the first value that cannot be
/// encoded.
pub fn encode_positional(items: Vec<HostValue>) -> (r: Result<Vec<SqlValue>, StoolapError>)
    ensures
        match encode_all(items@) {
            Ok(vs) => r matches Ok(v) && v@ == vs,
            Err(e) => r == Err::<Vec<SqlValue>, StoolapError>(e),
        },
        r matches Ok(v) ==> forall|i: int| 0 <= i < v@.len() ==> (#[trigger] v@[i]).wf(),
{
    let ghost all = items@;
    let mut rest = items;
    let mut out: Vec<SqlValue> = Vec::new();
    let n = rest.len();
    let mut i: usize = 0;
    assert(all.take(0) =~= Seq::<HostValue>::empty());
    while rest.len() > 0
        invariant
            all == items@,
            n == all.len(),
            i <= all.len(),
            rest@ == all.skip(i as int),
            encode_all(all.take(i as int)) == Ok::<Seq<SqlValue>, StoolapError>(out@),
            forall|j: int| 0 <= j < out@.len() ==> (#[trigger] out@[j]).wf(),
        decreases rest@.len(),
    {
        let h = rest.remove(0);
        proof {
            assert(all.take(i + 1).drop_last() =~= all.take(i as int));
            assert(all.take(i + 1).last() == h);
        }
        match py_to_value(h) {
            Ok(v) => {
                out.push(v);
            },
            Err(e) => {
                proof {
                    assert(encode_all(all.take(i + 1)) == Err::<Seq<SqlValue>, StoolapError>(e));
                    lemma_encode_all_err_extends(all, i + 1);
                }
                return Err(e);
            },
        }
        assert(rest@ =~= all.skip(i + 1));
        i = i + 1;
    }
    assert(all.take(i as int) =~= all);
    Ok(out)
}

proof fn lemma_encode_all_err_extends(all: Seq<HostValue>, n: int)
    requires
        0 <= n <= all.len(),
        encode_all(all.take(n)) is Err,
    ensures
        encode_all(all) == encode_all(all.take(n)),
    decreases all.len() - n,
{
    if n < all.len() {
        assert(all.take(n + 1).drop_last() =~= all.take(n));
        lemma_encode_all_err_extends(all, n + 1);
    } else {
        assert(all.take(n) =~= all);
    }
}

proof fn lemma_encode_entries_err_extends(all: Seq<(String, HostValue)>, n: int)
    requires
        0 <= n <= all.len(),
        encode_entries(all.take(n)) is Err,
    ensures
        encode_entries(all) == encode_entries(all.take(n)),
    decreases all.len() - n,
{
    if n < all.len() {
        assert(all.take(n + 1).drop_last() =~= all.take(n));
        lemma_encode_entries_err_extends(all, n + 1);
    } else {
        assert(all.take(n) =~= all);
    }
}

/// Encodes a mapping's entries as named bindings: names normalized, values encoded,
/// the last entry of a name winning.
pub fn encode_named(entries: Vec<(String, HostValue)>) -> (r: Result<
    Vec<(String, SqlValue)>,
    StoolapError,
>)
    ensures
        match encode_entries(entries@) {
            Ok(bs) => r matches Ok(n) && keys_unique(bindings_view(n@)) && forall|k: Seq<char>|
                lookup(bindings_view(n@), k) == lookup(bs, k),
            Err(e) => r == Err::<Vec<(String, SqlValue)>, StoolapError>(e),
        },
        r matches Ok(n) ==> all_wf(n@),
{
    let ghost all = entries@;
    let mut rest = entries;
    let mut out: Vec<(String, SqlValue)> = Vec::new();
    let n = rest.len();
    let mut i: usize = 0;
    assert(all.take(0) =~= Seq::<(String, HostValue)>::empty());
    assert(bindings_view(out@) =~= Seq::<(Seq<char>, SqlValue)>::empty());
    while rest.len() > 0
        invariant
            all == entries@,
            n == all.len(),
            i <= all.len(),
            rest@ == all.skip(i as int),
            encode_entries(all.take(i as int)) is Ok,
            keys_unique(bindings_view(out@)),
            all_wf(out@),
            forall|k: Seq<char>|
                lookup(bindings_view(out@), k) == lookup(
                    encode_entries(all.take(i as int))->Ok_0,
                    k,
                ),
        decreases rest@.len(),
    {
        let (key, h) = rest.remove(0);
        proof {
            assert(all.take(i + 1).drop_last() =~= all.take(i as int));
            assert(all.take(i + 1).last() == (key, h));
        }
        let name = normalize_name(key.as_str());
        match py_to_value(h) {
            Ok(v) => {
                let ghost prev = encode_entries(all.take(i as int))->Ok_0;
                let ghost nk = name@;
                put_binding(&mut out, name, v);
                proof {
                    let bs = prev.push((nk, v));
                    assert(bs.drop_last() =~= prev);
                    assert forall|k: Seq<char>|
                        lookup(bindings_view(out@), k) == lookup(bs, k) by {}
                }
            },
            Err(e) => {
                proof {
                    assert(encode_entries(all.take(i + 1)) == Err::<Seq<(Seq<char>, SqlValue)>, StoolapError>(e));
                    lemma_encode_entries_err_extends(all, i + 1);
                }
                return Err(e);
            },
        }
        assert(rest@ =~= all.skip(i + 1));
        i = i + 1;
    }
    assert(all.take(i as int) =~= all);
    Ok(out)
}

/// Classifies and encodes a host parameter collection: nothing binds no values, a
/// sequence binds by position, a mapping by normalized name, and anything else is a
/// usage error.
pub fn parse_params(h: HostParams) -> (r: Result<BindParams, StoolapError>)
    ensures
        parse_matches(h, r),
        r matches Ok(BindParams::Positional(v)) ==> values_wf(v@),
        r matches Ok(BindParams::Named(n)) ==> all_wf(n@),
{
    match h {
        HostParams::Absent => Ok(BindParams::Positional(Vec::new())),
        HostParams::Sequence(items) => match encode_positional(items) {
            Ok(v) => Ok(BindParams::Positional(v)),
            Err(e) => Err(e),
        },
        HostParams::Mapping(entries) => match encode_named(entries) {
            Ok(n) => Ok(BindParams::Named(n)),
            Err(e) => Err(e),
        },
        HostParams::Other(_) => Err(StoolapError::BadParameters),
    }
}

/// The error that parsing `h` gives, if it fails.
pub open spec fn params_error(h: HostParams) -> Option<StoolapError> {
    match h {
        HostParams::Absent => None,
        HostParams::Sequence(items) => match encode_all(items@) {
            Ok(_) => None,
            Err(e) => Some(e),
        },
        HostParams::Mapping(entries) => match encode_entries(entries@) {
            Ok(_) => None,
            Err(e) => Some(e),
        },
        HostParams::Other(_) => Some(StoolapError::BadParameters),
    }
}

pub open spec fn is_named(h: HostParams) -> bool {
    h is Mapping
}

/// The positional values of a batch's parameter sets, in order, or the error of the
/// first set that fails: to parse, or for being named.
pub open spec fn batch_sets(sets: Seq<HostParams>) -> Result<Seq<Seq<SqlValue>>, StoolapError>
    decreases sets.len(),
{
    if sets.len() == 0 {
        Ok(Seq::empty())
    } else {
        match batch_sets(sets.drop_last()) {
            Err(e) => Err(e),
            Ok(ps) => match params_error(sets.last()) {
                Some(e) => Err(e),
                None => match sets.last() {
                    HostParams::Sequence(items) => Ok(ps.push(encode_all(items@)->Ok_0)),
                    HostParams::Mapping(_) => Err(StoolapError::NamedInBatch),
                    _ => Ok(ps.push(Seq::empty())),
                },
            },
        }
    }
}

proof fn lemma_encode_all_usage(items: Seq<HostValue>)
    ensures
        encode_all(items) matches Err(e) ==> e.is_usage(),
    decreases items.len(),
{
    if items.len() > 0 {
        lemma_encode_all_usage(items.drop_last());
    }
}

proof fn lemma_encode_entries_usage(e: Seq<(String, HostValue)>)
    ensures
        encode_entries(e) matches Err(x) ==> x.is_usage(),
    decreases e.len(),
{
    if e.len() > 0 {
        lemma_encode_entries_usage(e.drop_last());
    }
}

/// A parameter collection that fails to parse is a usage error.
pub proof fn lemma_params_error_is_usage(h: HostParams)
    ensures
        params_error(h) matches Some(e) ==> e.is_usage(),
{
    match h {
        HostParams::Sequence(items) => lemma_encode_all_usage(items@),
        HostParams::Mapping(entries) => lemma_encode_entries_usage(entries@),
        _ => {},
    }
}

/// A batch whose parameter sets include a named one is rejected with a usage error,
/// whatever the other sets are.
pub proof fn lemma_batch_rejects_named(sets: Seq<HostParams>, i: int)
    requires
        0 <= i < sets.len(),
        is_named(sets[i]),
    ensures
        batch_sets(sets) matches Err(e) && e.is_usage(),
    decreases sets.len(),
{
    if i < sets.len() - 1 {
        lemma_batch_rejects_named(sets.drop_last(), i);
    } else {
        lemma_batch_sets_usage(sets.drop_last());
        lemma_params_error_is_usage(sets.last());
    }
}

/// Whatever error a batch's parameter sets give is a usage error.
pub proof fn lemma_batch_sets_usage(sets: Seq<HostParams>)
    ensures
        batch_sets(sets) matches Err(e) ==> e.is_usage(),
    decreases sets.len(),
{
    if sets.len() > 0 {
        lemma_batch_sets_usage(sets.drop_last());
        lemma_params_error_is_usage(sets.last());
    }
}

pub open spec fn sets_view(v: Seq<Vec<SqlValue>>) -> Seq<Seq<SqlValue>> {
    v.map_values(|x: Vec<SqlValue>| x@)
}

proof fn lemma_batch_sets_err_extends(all: Seq<HostParams>, n: int)
    requires
        0 <= n <= all.len(),
        batch_sets(all.take(n)) is Err,
    ensures
        batch_sets(all) == batch_sets(all.take(n)),
    decreases all.len() - n,
{
    if n < all.len() {
        assert(all.take(n + 1).drop_last() =~= all.take(n));
        lemma_batch_sets_err_extends(all, n + 1);
    } else {
        assert(all.take(n) =~= all);
    }
}

/// Parses every parameter set of a batch, in order, before anything runs: each must
/// be positional; the first that fails, or is named, decides the error.
pub fn positional_sets(sets: Vec<HostParams>) -> (r: Result<Vec<Vec<SqlValue>>, StoolapError>)
    ensures
        match batch_sets(sets@) {
            Ok(ps) => r matches Ok(v) && sets_view(v@) == ps,
            Err(e) => r == Err::<Vec<Vec<SqlValue>>, StoolapError>(e),
        },
        r matches Ok(v) ==> forall|i: int| 0 <= i < v@.len() ==> values_wf(#[trigger] v@[i]@),
{
    let ghost all = sets@;
    let mut rest = sets;
    let n = rest.len();
    let mut out: Vec<Vec<SqlValue>> = Vec::new();
    let mut i: usize = 0;
    assert(all.take(0) =~= Seq::<HostParams>::empty());
    assert(sets_view(out@) =~= Seq::<Seq<SqlValue>>::empty());
    while rest.len() > 0
        invariant
            all == sets@,
            n == all.len(),
            i <= all.len(),
            rest@ == all.skip(i as int),
            batch_sets(all.take(i as int)) == Ok::<Seq<Seq<SqlValue>>, StoolapError>(
                sets_view(out@),
            ),
            forall|j: int| 0 <= j < out@.len() ==> values_wf(#[trigger] out@[j]@),
        decreases rest@.len(),
    {
        let h = rest.remove(0);
        proof {
            assert(all.take(i + 1).drop_last() =~= all.take(i as int));
            assert(all.take(i + 1).last() == h);
        }
        let ghost hh = h;
        match parse_params(h) {
            Ok(BindParams::Positional(v)) => {
                proof {
                    if hh is Sequence {
                        assert(encode_all(hh->Sequence_0@) == Ok::<Seq<SqlValue>, StoolapError>(
                            v@,
                        ));
                    } else {
                        assert(v@ =~= Seq::<SqlValue>::empty());
                    }
                    assert(sets_view(out@.push(v)) =~= sets_view(out@).push(v@));
                }
                out.push(v);
            },
            Ok(BindParams::Named(_)) => {
                proof {
                    lemma_batch_sets_err_extends(all, i + 1);
                }
                return Err(StoolapError::NamedInBatch);
            },
            Err(e) => {
                proof {
                    lemma_batch_sets_err_extends(all, i + 1);
                }
                return Err(e);
            },
        }
        assert(rest@ =~= all.skip(i + 1));
        i = i + 1;
    }
    assert(all.take(i as int) =~= all);
    Ok(out)
}

} // verus!
