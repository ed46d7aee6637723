//! Parameters of setup and subscription messages: a map from parameter key
//! to the encoded value.
use crate::error::{Error, ErrorView};
use crate::error::{parse_err, ErrorCode};
use crate::message::Role;
use crate::serde::varint::{
    read_var_int, read_var_usize, spec_read_var_int, spec_read_var_usize, spec_var_int,
    write_var_int, write_var_usize,
};
use crate::serde::{at, copy_range, lemma_string_roundtrip, spec_read_string, spec_string, string_from_utf8};
use crate::text::text;
use vstd::utf8::{decode_utf8, encode_utf8, valid_utf8};
use crate::serde::{append_bytes, lemma_first_step, lemma_then_step, lemma_vec_len, then, wrote, Deserializer, Serializer};
use std::collections::HashMap;
use vstd::std_specs::hash::spec_keys_iter;
use vstd::std_specs::iter::IteratorSpec;
use vstd::prelude::*;

verus! {

broadcast use vstd::std_specs::hash::group_hash_axioms;

/// The parameters that this library knows.
#[derive(Default, Debug, Copy, Clone, Eq, PartialEq, Structural)]
pub enum ParameterKey {
    #[default]
    Role,
    Path,
    AuthorizationInfo,
}

impl View for ParameterKey {
    type V = ParameterKey;

    open spec fn view(&self) -> ParameterKey {
        *self
    }
}

impl ParameterKey {
    /// The key under which a parameter is stored and written.
    pub open spec fn code(self) -> u64 {
        match self {
            ParameterKey::Role => 0,
            ParameterKey::Path => 1,
            ParameterKey::AuthorizationInfo => 2,
        }
    }

    pub fn value(&self) -> (v: u64)
        ensures
            v == self.code(),
    {
        match *self {
            ParameterKey::Role => 0,
            ParameterKey::Path => 1,
            ParameterKey::AuthorizationInfo => 2,
        }
    }

    /// The key named by a number: 1, 2 and 3 name the role, the path and
    /// the authorization info.
    pub open spec fn spec_try_from(value: u64) -> Result<ParameterKey, ErrorView> {
        if value == 0x1 {
            Ok(ParameterKey::Role)
        } else if value == 0x2 {
            Ok(ParameterKey::Path)
        } else if value == 0x3 {
            Ok(ParameterKey::AuthorizationInfo)
        } else {
            Err(ErrorView::ErrUnsupportedParameter(value))
        }
    }

    pub fn try_from(value: u64) -> (res: Result<ParameterKey, Error>)
        ensures
            match ParameterKey::spec_try_from(value) {
                Ok(k) => res == Ok::<ParameterKey, Error>(k),
                Err(e) => res matches Err(x) && x@ == e,
            },
    {
        if value == 0x1 {
            Ok(ParameterKey::Role)
        } else if value == 0x2 {
            Ok(ParameterKey::Path)
        } else if value == 0x3 {
            Ok(ParameterKey::AuthorizationInfo)
        } else {
            Err(Error::ErrUnsupportedParameter(value))
        }
    }
}

/// The keys whose values are written without a separate length, because
/// the value already begins with its own length (a string).
pub open spec fn self_delimited(key: u64) -> bool {
    key == 1 || key == 2
}

/// Each item comes strictly before the next.
pub open spec fn strictly_sorted(ks: Seq<u64>) -> bool {
    forall|i: int, j: int| 0 <= i < j < ks.len() ==> ks[i] < ks[j]
}

/// `ks` holds exactly the keys of `m`.
pub open spec fn holds_keys(ks: Seq<u64>, m: Map<u64, Seq<u8>>) -> bool {
    forall|k: u64| #[trigger] ks.contains(k) <==> m.dom().contains(k)
}

/// The keys of `m` in increasing order.
pub open spec fn sorted_keys(m: Map<u64, Seq<u8>>) -> Seq<u64> {
    choose|ks: Seq<u64>| strictly_sorted(ks) && holds_keys(ks, m)
}

/// Two strictly sorted sequences with the same items are the same.
pub proof fn lemma_sorted_unique(a: Seq<u64>, b: Seq<u64>)
    requires
        strictly_sorted(a),
        strictly_sorted(b),
        forall|k: u64| #![trigger a.contains(k)] #![trigger b.contains(k)] a.contains(k) <==> b.contains(k),
    ensures
        a == b,
    decreases a.len(),
{
    if a.len() == 0 {
        if b.len() > 0 {
            assert(b.contains(b[0]));
            assert(a.contains(b[0]));
        }
        assert(a =~= b);
    } else {
        assert(a.contains(a[0]));
        assert(b.len() > 0);
        assert(b.contains(b[0]));
        assert(a.contains(b[0]));
        assert(b.contains(a[0]));
        let ia = choose|i: int| 0 <= i < a.len() && a[i] == b[0];
        let ib = choose|i: int| 0 <= i < b.len() && b[i] == a[0];
        assert(a[0] <= a[ia]);
        assert(b[0] <= b[ib]);
        assert(a[0] == b[0]);
        let a1 = a.drop_first();
        let b1 = b.drop_first();
        assert forall|k: u64| #![trigger a1.contains(k)] #![trigger b1.contains(k)] a1.contains(k) <==> b1.contains(k) by {
            if a1.contains(k) {
                let i = choose|i: int| 0 <= i < a1.len() && a1[i] == k;
                assert(a[i + 1] == k);
                assert(a.contains(k));
                assert(b.contains(k));
                let j = choose|j: int| 0 <= j < b.len() && b[j] == k;
                assert(j != 0);
                assert(b1[j - 1] == k);
            }
            if b1.contains(k) {
                let i = choose|i: int| 0 <= i < b1.len() && b1[i] == k;
                assert(b[i + 1] == k);
                assert(b.contains(k));
                assert(a.contains(k));
                let j = choose|j: int| 0 <= j < a.len() && a[j] == k;
                assert(j != 0);
                assert(a1[j - 1] == k);
            }
        }
        lemma_sorted_unique(a1, b1);
        assert(a =~= b) by {
            assert(a =~= seq![a[0]] + a1);
            assert(b =~= seq![b[0]] + b1);
        }
    }
}

/// A strictly sorted sequence of the keys is the sorted sequence of keys.
pub proof fn lemma_sorted_keys(ks: Seq<u64>, m: Map<u64, Seq<u8>>)
    requires
        strictly_sorted(ks),
        holds_keys(ks, m),
    ensures
        sorted_keys(m) == ks,
{
    let c = sorted_keys(m);
    assert(strictly_sorted(c) && holds_keys(c, m));
    assert forall|k: u64| #![trigger c.contains(k)] #![trigger ks.contains(k)] c.contains(k) <==> ks.contains(k) by {
        assert(c.contains(k) <==> m.dom().contains(k));
        assert(ks.contains(k) <==> m.dom().contains(k));
    }
    lemma_sorted_unique(c, ks);
}

/// What one parameter adds: its key, the length of its value unless the
/// value carries its own, and the value.
pub open spec fn spec_entry(key: u64, value: Seq<u8>) -> Result<Seq<u8>, ErrorView> {
    then(
        then(
            spec_var_int(key),
            if self_delimited(key) {
                Ok(Seq::empty())
            } else {
                spec_var_int(value.len() as u64)
            },
        ),
        Ok(value),
    )
}

/// The parameters with keys `ks`, one after another.
pub open spec fn spec_entries(ks: Seq<u64>, m: Map<u64, Seq<u8>>) -> Result<Seq<u8>, ErrorView>
    decreases ks.len(),
{
    if ks.len() == 0 {
        Ok(Seq::empty())
    } else {
        then(spec_entries(ks.drop_last(), m), spec_entry(ks.last(), m[ks.last()]))
    }
}

/// Parameters: encoded values by key.
#[derive(Default, Debug, Clone, Eq, PartialEq)]
pub struct Parameters(pub HashMap<u64, Vec<u8>>);

impl View for Parameters {
    type V = Map<u64, Seq<u8>>;

    open spec fn view(&self) -> Map<u64, Seq<u8>> {
        self.0@.map_values(|v: Vec<u8>| v@)
    }
}

/// Inserts `k` into strictly sorted `out`, where it is not yet.
fn insert_sorted(out: &mut Vec<u64>, k: u64)
    requires
        strictly_sorted(old(out)@),
        !old(out)@.contains(k),
    ensures
        strictly_sorted(final(out)@),
        forall|x: u64| #[trigger] final(out)@.contains(x) <==> (old(out)@.contains(x) || x == k),
{
    let mut i: usize = 0;
    while i < out.len() && out[i] < k
        invariant
            i <= out@.len(),
            forall|j: int| 0 <= j < i ==> out@[j] < k,
        decreases out@.len() - i,
    {
        i = i + 1;
    }
    let ghost before = out@;
    proof {
        assert forall|j: int| i <= j < before.len() implies before[j] > k by {
            assert(before[i as int] >= k);
            assert(before[i as int] != k);
            if j > i {
                assert(before[i as int] < before[j]);
            }
        }
    }
    out.insert(i, k);
    proof {
        let after = out@;
        assert(after == before.insert(i as int, k));
        assert forall|x: u64| #[trigger] after.contains(x) <==> (before.contains(x) || x == k) by {
            if after.contains(x) {
                let j = choose|j: int| 0 <= j < after.len() && after[j] == x;
                if j < i {
                    assert(before[j] == x);
                } else if j > i {
                    assert(before[j - 1] == x);
                }
            }
            if before.contains(x) {
                let j = choose|j: int| 0 <= j < before.len() && before[j] == x;
                if j < i {
                    assert(after[j] == x);
                } else {
                    assert(after[j + 1] == x);
                }
            }
            if x == k {
                assert(after[i as int] == k);
            }
        }
    }
}

impl Parameters {
    pub fn new() -> (p: Parameters)
        ensures
            p@ == Map::<u64, Seq<u8>>::empty(),
    {
        let p = Parameters(HashMap::new());
        assert(p@ =~= Map::<u64, Seq<u8>>::empty());
        p
    }

    pub fn contains(&self, key: ParameterKey) -> (b: bool)
        ensures
            b == self@.dom().contains(key.code()),
    {
        self.0.contains_key(&key.value())
    }

    /// Stores the encoding of `p` under `key`; fails when `key` is already
    /// there, or when `p` cannot be written, leaving the parameters as they
    /// were.
    pub fn insert<P: Serializer>(&mut self, key: ParameterKey, p: P) -> (res: Result<(), Error>)
        ensures
            if old(self)@.dom().contains(key.code()) {
                &&& res matches Err(e) && e@ == ErrorView::ErrDuplicateParameter
                &&& final(self)@ == old(self)@
            } else {
                match P::spec_serialize(p@) {
                    Ok(b) => res is Ok && final(self)@ == old(self)@.insert(key.code(), b),
                    Err(e) => res matches Err(x) && x@ == e && final(self)@ == old(self)@,
                }
            },
    {
        if self.contains(key) {
            return Err(Error::ErrDuplicateParameter);
        }
        let mut value: Vec<u8> = Vec::new();
        match p.serialize(&mut value) {
            Ok(_) => {},
            Err(e) => return Err(e),
        }
        assert(value@ =~= Seq::<u8>::empty() + value@);
        let ghost old_map = self@;
        self.0.insert(key.value(), value);
        proof {
            assert(self@ =~= old_map.insert(key.code(), value@));
        }
        Ok(())
    }

    /// Takes the value stored under `key` out and decodes it as a `P`; the
    /// key is gone afterwards even where decoding fails.
    pub fn remove<P: Deserializer>(&mut self, key: ParameterKey) -> (res: Result<Option<P>, Error>)
        ensures
            final(self)@ == old(self)@.remove(key.code()),
            if old(self)@.dom().contains(key.code()) {
                match P::spec_deserialize(old(self)@[key.code()]) {
                    Ok((v, _)) => res matches Ok(Some(x)) && x@ == v,
                    Err(e) => res matches Err(x) && x@ == e,
                }
            } else {
                res matches Ok(None)
            },
    {
        let ghost old_map = self@;
        let k = key.value();
        let removed = self.0.remove(&k);
        proof {
            assert(self@ =~= old_map.remove(key.code()));
        }
        match removed {
            Some(value) => match P::deserialize(value.as_slice()) {
                Ok((p, _)) => Ok(Some(p)),
                Err(e) => Err(e),
            },
            None => Ok(None),
        }
    }

    /// What writing parameters appends: their number, then each parameter in
    /// increasing order of key.
    pub open spec fn spec_wire(m: Map<u64, Seq<u8>>) -> Result<Seq<u8>, ErrorView> {
        then(spec_var_int(m.dom().len() as u64), spec_entries(sorted_keys(m), m))
    }

    /// The keys, in increasing order.
    fn sorted_keys(&self) -> (ks: Vec<u64>)
        ensures
            strictly_sorted(ks@),
            holds_keys(ks@, self@),
    {
        let mut out: Vec<u64> = Vec::new();
        let ghost all = spec_keys_iter(&self.0).remaining().unref();
        proof {
            assert(all.to_set() == self.0@.dom());
            assert(all.no_duplicates());
        }
        for k in it: self.0.keys()
            invariant
                strictly_sorted(out@),
                it.seq().unref() == all,
                all.no_duplicates(),
                forall|x: u64| #[trigger] out@.contains(x) <==> exists|j: int|
                    0 <= j < it.index() && all[j] == x,
        {
            proof {
                assert(all[it.index()] == *k);
                if out@.contains(*k) {
                    let j = choose|j: int| 0 <= j < it.index() && all[j] == *k;
                    assert(false);
                }
            }
            insert_sorted(&mut out, *k);
        }
        proof {
            assert forall|x: u64| #[trigger] out@.contains(x) <==> self@.dom().contains(x) by {
                if out@.contains(x) {
                    let j = choose|j: int| 0 <= j < all.len() && all[j] == x;
                    assert(all.to_set().contains(x));
                }
                if self@.dom().contains(x) {
                    assert(all.to_set().contains(x));
                    assert(all.contains(x));
                }
            }
        }
        out
    }

    pub fn serialize(&self, w: &mut Vec<u8>) -> (res: Result<usize, Error>)
        ensures
            wrote(old(w)@, final(w)@, res, Parameters::spec_wire(self@)),
    {
        let ghost old_w = w@;
        let ghost m = self@;
        let r = write_var_usize(self.0.len(), w);
        proof {
            assert(self.0@.dom() =~= m.dom());
            lemma_first_step(old_w, w@, r, spec_var_int(m.dom().len() as u64));
        }
        let mut total = match r {
            Ok(l) => l,
            Err(e) => return Err(e),
        };
        let ghost head = spec_var_int(m.dom().len() as u64)->Ok_0;
        let ghost mut body: Seq<u8> = Seq::empty();
        let kinds = self.sorted_keys();
        proof {
            lemma_sorted_keys(kinds@, m);
            assert(kinds@.take(0) =~= Seq::<u64>::empty());
            assert(head + body =~= head);
        }
        let mut i: usize = 0;
        while i < kinds.len()
            invariant
                i <= kinds@.len(),
                strictly_sorted(kinds@),
                holds_keys(kinds@, m),
                sorted_keys(m) == kinds@,
                m == self@,
                old_w == old(w)@,
                spec_var_int(m.dom().len() as u64) == Ok::<Seq<u8>, ErrorView>(head),
                spec_entries(kinds@.take(i as int), m) == Ok::<Seq<u8>, ErrorView>(body),
                w@ == old_w + (head + body),
                total == (head + body).len(),
            decreases kinds@.len() - i,
        {
            let kind = kinds[i];
            proof {
                assert(kinds@.contains(kind));
            }
            let value = match self.0.get(&kind) {
                Some(v) => v,
                None => {
                    proof {
                        assert(false);
                    }
                    return Err(Error::ErrMissingParameter);
                },
            };
            let r = write_entry(kind, value.as_slice(), w);
            proof {
                assert(m[kind] == value@);
                lemma_then_step(old_w, head + body, w@, r, spec_entry(kind, m[kind]));
                lemma_vec_len(w);
                assert(kinds@.take(i + 1).drop_last() =~= kinds@.take(i as int));
                assert(kinds@.take(i + 1).last() == kind);
                let entry = spec_entry(kind, m[kind]);
                if entry is Err {
                    assert(spec_entries(kinds@.take(i + 1), m) == entry);
                    lemma_entries_prefix(kinds@, i + 1, m);
                    assert(Parameters::spec_wire(m) == entry);
                }
            }
            let l = match r {
                Ok(l) => l,
                Err(e) => {
                    return Err(e);
                },
            };
            proof {
                body = body + spec_entry(kind, m[kind])->Ok_0;
                assert(w@ =~= old_w + (head + body));
            }
            total = total + l;
            i = i + 1;
        }
        proof {
            assert(kinds@.take(kinds@.len() as int) =~= kinds@);
        }
        Ok(total)
    }
}

/// Once the parameters written so far fail, the whole list fails the same way.
pub proof fn lemma_entries_prefix(ks: Seq<u64>, j: int, m: Map<u64, Seq<u8>>)
    requires
        0 <= j <= ks.len(),
        spec_entries(ks.take(j), m) is Err,
    ensures
        spec_entries(ks, m) == spec_entries(ks.take(j), m),
    decreases ks.len(),
{
    if j == ks.len() {
        assert(ks.take(j) =~= ks);
    } else {
        assert(ks.drop_last().take(j) =~= ks.take(j));
        lemma_entries_prefix(ks.drop_last(), j, m);
    }
}

/// Writes one parameter.
fn write_entry(kind: u64, value: &[u8], w: &mut Vec<u8>) -> (res: Result<usize, Error>)
    ensures
        wrote(old(w)@, final(w)@, res, spec_entry(kind, value@)),
{
    let ghost old_w = w@;
    let r = write_var_int(kind, w);
    proof {
        lemma_first_step(old_w, w@, r, spec_var_int(kind));
    }
    let mut total = match r {
        Ok(l) => l,
        Err(e) => return Err(e),
    };
    let ghost mut acc = spec_var_int(kind)->Ok_0;
    if !(kind == 1 || kind == 2) {
        let len = crate::serde::slice_len(value);
        let r = write_var_usize(len, w);
        proof {
            lemma_then_step(old_w, acc, w@, r, spec_var_int(value@.len() as u64));
            lemma_vec_len(w);
        }
        let l = match r {
            Ok(l) => l,
            Err(e) => return Err(e),
        };
        proof {
            acc = acc + spec_var_int(value@.len() as u64)->Ok_0;
        }
        total = total + l;
    } else {
        proof {
            assert(acc + Seq::<u8>::empty() =~= acc);
        }
    }
    append_bytes(value, w);
    proof {
        lemma_vec_len(w);
        assert(w@ =~= old_w + (acc + value@));
    }
    total = total + crate::serde::slice_len(value);
    Ok(total)
}

// ---------------------------------------------------------------------------
// Parameter lists as messages carry them.
/// The encoded value of an authorization info parameter.
pub open spec fn auth_value(auth: Seq<char>) -> Result<Seq<u8>, ErrorView> {
    crate::serde::spec_string(auth)
}

/// What writing an authorization info as the only parameter appends.
pub open spec fn spec_auth_wire(auth: Seq<char>) -> Result<Seq<u8>, ErrorView> {
    match auth_value(auth) {
        Ok(b) => Parameters::spec_wire(Map::empty().insert(2, b)),
        Err(e) => Err(e),
    }
}

/// Writes `auth` as the only parameter, under the authorization info key.
pub fn write_auth(auth: &String, w: &mut Vec<u8>) -> (res: Result<usize, Error>)
    ensures
        wrote(old(w)@, final(w)@, res, spec_auth_wire(auth@)),
{
    let mut parameters = Parameters::new();
    match parameters.insert(ParameterKey::AuthorizationInfo, auth.clone()) {
        Ok(()) => {},
        Err(e) => {
            proof {
                assert forall|i: int| 0 <= i < old(w)@.len() implies w@[i] == old(w)@[i] by {}
            }
            return Err(e);
        },
    }
    parameters.serialize(w)
}

/// What writing an optional authorization info appends: the parameters
/// where there is one, and nothing where there is none.
pub open spec fn spec_auth_list_wire(auth: Option<Seq<char>>) -> Result<Seq<u8>, ErrorView> {
    match auth {
        Some(a) => spec_auth_wire(a),
        None => Ok(Seq::empty()),
    }
}

/// Writes the optional authorization info of a message.
pub fn write_auth_list(auth: &Option<String>, w: &mut Vec<u8>) -> (res: Result<usize, Error>)
    ensures
        wrote(old(w)@, final(w)@, res, spec_auth_list_wire(opt_view(*auth))),
{
    match auth {
        Some(a) => write_auth(a, w),
        None => {
            assert(w@ =~= old(w)@ + Seq::<u8>::empty());
            Ok(0)
        },
    }
}

/// Reading the parameter list of a message whose only known parameter is
/// the authorization info: their number, then the parameters.
pub open spec fn spec_read_auth_list(s: Seq<u8>, off: int, dup: Seq<char>, skip: bool) -> Result<
    (Option<Seq<char>>, int),
    ErrorView,
> {
    match spec_read_var_int(s, off) {
        Ok((n, p)) => spec_read_auth_params(s, p, n as nat, None, dup, skip),
        Err(e) => Err(e),
    }
}

pub fn read_auth_list(r: &[u8], pos: usize, dup: &str, skip: bool) -> (res: Result<
    (Option<String>, usize),
    Error,
>)
    ensures
        opt_outcome(res, spec_read_auth_list(r@, pos as int, dup@, skip)),
{
    let (n, p) = match read_var_int(r, pos) {
        Ok(x) => x,
        Err(e) => return Err(e),
    };
    read_auth_params(r, p, n, dup, skip)
}

/// An authorization info written as the only parameter is read back.
pub proof fn lemma_auth_roundtrip(auth: Seq<char>, s: Seq<u8>, off: int, dup: Seq<char>, skip: bool)
    requires
        spec_auth_wire(auth) is Ok,
        vstd::utf8::encode_utf8(auth).len() <= usize::MAX,
        crate::serde::at(s, off, spec_auth_wire(auth)->Ok_0),
    ensures
        spec_read_auth_list(s, off, dup, skip) == Ok::<(Option<Seq<char>>, int), ErrorView>(
            (Some(auth), off + spec_auth_wire(auth)->Ok_0.len()),
        ),
{
    let b = auth_value(auth)->Ok_0;
    lemma_wire_one(2, b);
    let one = spec_var_int(1)->Ok_0;
    let two = spec_var_int(2)->Ok_0;
    assert(spec_entry(2, b) == Ok::<Seq<u8>, ErrorView>(two + Seq::<u8>::empty() + b));
    assert(two + Seq::<u8>::empty() =~= two);
    let whole = one + (two + b);
    assert(spec_auth_wire(auth)->Ok_0 == whole);
    assert(whole =~= (one + two) + b);
    crate::serde::lemma_at_split(s, off, one + two, b);
    crate::serde::lemma_at_split(s, off, one, two);
    crate::serde::varint::lemma_u64_roundtrip(1, s, off);
    crate::serde::varint::lemma_u64_roundtrip(2, s, off + one.len());
    crate::serde::lemma_string_roundtrip(auth, s, off + one.len() + two.len());
    let p1 = off + one.len();
    let p2 = p1 + two.len();
    assert(spec_read_string(s, p2) == Ok::<(Seq<char>, int), ErrorView>((auth, off + whole.len())));
    assert(spec_read_auth_params(s, p1, 1, None, dup, skip) == spec_read_auth_params(
        s,
        off + whole.len(),
        0,
        Some(auth),
        dup,
        skip,
    ));
}

/// The parameters of a setup message: the role under key 0 and the path
/// under key 1, each where there is one.
pub open spec fn setup_map(role: Option<Role>, path_value: Option<Seq<u8>>) -> Map<u64, Seq<u8>> {
    let m = match role {
        Some(r) => Map::empty().insert(0, Role::spec_wire(r)->Ok_0),
        None => Map::empty(),
    };
    match path_value {
        Some(b) => m.insert(1, b),
        None => m,
    }
}

/// What writing the parameters of a setup message appends.
pub open spec fn spec_setup_wire(role: Option<Role>, path: Option<Seq<char>>) -> Result<
    Seq<u8>,
    ErrorView,
> {
    match path {
        Some(p) => match crate::serde::spec_string(p) {
            Ok(b) => Parameters::spec_wire(setup_map(role, Some(b))),
            Err(e) => Err(e),
        },
        None => Parameters::spec_wire(setup_map(role, None)),
    }
}

/// Writes the parameters of a setup message.
pub fn write_setup(role: &Option<Role>, path: &Option<String>, w: &mut Vec<u8>) -> (res: Result<
    usize,
    Error,
>)
    ensures
        wrote(old(w)@, final(w)@, res, spec_setup_wire(*role, opt_view(*path))),
{
    let mut parameters = Parameters::new();
    match role {
        Some(r) => {
            let x = parameters.insert(ParameterKey::Role, *r);
            assert(x is Ok);
        },
        None => {},
    }
    proof {
        assert(parameters@ =~= setup_map(*role, None));
    }
    match path {
        Some(p) => {
            match parameters.insert(ParameterKey::Path, p.clone()) {
                Ok(()) => {},
                Err(e) => {
                    proof {
                        assert(crate::serde::extends(old(w)@, w@));
                    }
                    return Err(e);
                },
            }
            proof {
                assert(parameters@ =~= setup_map(*role, Some(crate::serde::spec_string(p@)->Ok_0)));
            }
        },
        None => {},
    }
    parameters.serialize(w)
}

/// Reading the parameter list of a setup message: their number, then the
/// parameters.
pub open spec fn spec_read_setup_list(s: Seq<u8>, off: int, client: bool) -> Result<
    (Option<Role>, Option<Seq<char>>, int),
    ErrorView,
> {
    match spec_read_var_int(s, off) {
        Ok((n, p)) => spec_read_setup_params(s, p, n as nat, None, None, client),
        Err(e) => Err(e),
    }
}

pub fn read_setup_list(r: &[u8], pos: usize, client: bool) -> (res: Result<
    (Option<Role>, Option<String>, usize),
    Error,
>)
    ensures
        setup_outcome(res, spec_read_setup_list(r@, pos as int, client)),
{
    let (n, p) = match read_var_int(r, pos) {
        Ok(x) => x,
        Err(e) => return Err(e),
    };
    read_setup_params(r, p, n, client)
}

/// A role parameter, read at `off` where its entry stands, is taken.
proof fn lemma_role_entry(
    role: Role,
    path: Option<Seq<char>>,
    s: Seq<u8>,
    off: int,
    n: nat,
    client: bool,
)
    requires
        n >= 1,
        at(s, off, spec_entry(0, Role::spec_wire(role)->Ok_0)->Ok_0),
    ensures
        spec_read_setup_params(s, off, n, None, path, client) == spec_read_setup_params(
            s,
            off + spec_entry(0, Role::spec_wire(role)->Ok_0)->Ok_0.len(),
            (n - 1) as nat,
            Some(role),
            path,
            client,
        ),
{
    let rb = Role::spec_wire(role)->Ok_0;
    crate::serde::varint::lemma_var_int_len(role.code());
    let k0 = spec_var_int(0)->Ok_0;
    let l0 = spec_var_int(rb.len() as u64)->Ok_0;
    assert(spec_entry(0, rb)->Ok_0 == k0 + l0 + rb);
    crate::serde::lemma_at_split(s, off, k0 + l0, rb);
    crate::serde::lemma_at_split(s, off, k0, l0);
    crate::serde::varint::lemma_u64_roundtrip(0, s, off);
    crate::serde::varint::lemma_u64_roundtrip(rb.len() as u64, s, off + k0.len());
    crate::serde::varint::lemma_u64_roundtrip(role.code(), s, off + k0.len() + l0.len());
}

/// A path parameter, read at `off` where its entry stands, is taken.
proof fn lemma_path_entry(
    role: Option<Role>,
    path: Seq<char>,
    s: Seq<u8>,
    off: int,
    n: nat,
)
    requires
        n >= 1,
        crate::serde::spec_string(path) is Ok,
        vstd::utf8::encode_utf8(path).len() <= usize::MAX,
        at(s, off, spec_entry(1, crate::serde::spec_string(path)->Ok_0)->Ok_0),
    ensures
        spec_read_setup_params(s, off, n, role, None, true) == spec_read_setup_params(
            s,
            off + spec_entry(1, crate::serde::spec_string(path)->Ok_0)->Ok_0.len(),
            (n - 1) as nat,
            role,
            Some(path),
            true,
        ),
{
    let pb = crate::serde::spec_string(path)->Ok_0;
    let k1 = spec_var_int(1)->Ok_0;
    assert(spec_entry(1, pb)->Ok_0 == k1 + Seq::<u8>::empty() + pb);
    assert(k1 + Seq::<u8>::empty() =~= k1);
    crate::serde::lemma_at_split(s, off, k1, pb);
    crate::serde::varint::lemma_u64_roundtrip(1, s, off);
    crate::serde::lemma_string_roundtrip(path, s, off + k1.len());
    assert(spec_read_string(s, off + k1.len()) == Ok::<(Seq<char>, int), ErrorView>(
        (path, off + k1.len() + pb.len()),
    ));
}

/// The parameters of a setup message written and read back give the same
/// role and path.
pub proof fn lemma_setup_roundtrip(
    role: Role,
    path: Option<Seq<char>>,
    s: Seq<u8>,
    off: int,
    client: bool,
)
    requires
        spec_setup_wire(Some(role), path) is Ok,
        path is Some ==> client && vstd::utf8::encode_utf8(path->Some_0).len() <= usize::MAX,
        at(s, off, spec_setup_wire(Some(role), path)->Ok_0),
    ensures
        spec_read_setup_list(s, off, client) == Ok::<
            (Option<Role>, Option<Seq<char>>, int),
            ErrorView,
        >((Some(role), path, off + spec_setup_wire(Some(role), path)->Ok_0.len())),
{
    let rb = Role::spec_wire(role)->Ok_0;
    crate::serde::varint::lemma_var_int_len(role.code());
    let e0 = spec_entry(0, rb)->Ok_0;
    match path {
        None => {
            lemma_wire_one(0, rb);
            let c = spec_var_int(1)->Ok_0;
            assert(setup_map(Some(role), None) == Map::<u64, Seq<u8>>::empty().insert(0, rb));
            assert(spec_setup_wire(Some(role), path)->Ok_0 == c + e0);
            crate::serde::lemma_at_split(s, off, c, e0);
            crate::serde::varint::lemma_u64_roundtrip(1, s, off);
            lemma_role_entry(role, None, s, off + c.len(), 1, client);
            assert(spec_read_var_int(s, off) == Ok::<(u64, int), ErrorView>((1, off + c.len())));
            assert(spec_read_setup_params(s, off + c.len() + e0.len(), 0, Some(role), None, client)
                == Ok::<(Option<Role>, Option<Seq<char>>, int), ErrorView>(
                (Some(role), None, off + c.len() + e0.len()),
            ));
            assert(spec_read_setup_params(s, off + c.len(), 1, None, None, client)
                == Ok::<(Option<Role>, Option<Seq<char>>, int), ErrorView>(
                (Some(role), None, off + c.len() + e0.len()),
            ));
            assert(spec_read_setup_list(s, off, client) == spec_read_setup_params(s, off + c.len(), 1, None, None, client));
        },
        Some(p) => {
            let pb = crate::serde::spec_string(p)->Ok_0;
            lemma_wire_two(0, rb, 1, pb);
            let e1 = spec_entry(1, pb)->Ok_0;
            let c = spec_var_int(2)->Ok_0;
            assert(setup_map(Some(role), Some(pb)) == Map::<u64, Seq<u8>>::empty().insert(
                0,
                rb,
            ).insert(1, pb));
            assert(Seq::<u8>::empty() + e0 =~= e0);
            assert(spec_setup_wire(Some(role), path)->Ok_0 == c + (e0 + e1));
            assert(c + (e0 + e1) =~= (c + e0) + e1);
            crate::serde::lemma_at_split(s, off, c + e0, e1);
            crate::serde::lemma_at_split(s, off, c, e0);
            crate::serde::varint::lemma_u64_roundtrip(2, s, off);
            lemma_role_entry(role, None, s, off + c.len(), 2, client);
            lemma_path_entry(Some(role), p, s, off + c.len() + e0.len(), 1);
            assert(spec_read_var_int(s, off) == Ok::<(u64, int), ErrorView>((2, off + c.len())));
            assert(spec_read_setup_params(s, off + c.len() + e0.len() + e1.len(), 0, Some(role), path, client)
                == Ok::<(Option<Role>, Option<Seq<char>>, int), ErrorView>(
                (Some(role), path, off + c.len() + e0.len() + e1.len()),
            ));
        },
    }
}

/// The parameters of a map with one key.
pub proof fn lemma_wire_one(k: u64, b: Seq<u8>)
    ensures
        Parameters::spec_wire(Map::empty().insert(k, b)) == then(spec_var_int(1), spec_entry(k, b)),
{
    let m = Map::<u64, Seq<u8>>::empty().insert(k, b);
    let ks = seq![k];
    assert(m.dom() =~= Set::<u64>::empty().insert(k));
    assert(m.dom().len() == 1);
    assert forall|x: u64| #[trigger] ks.contains(x) <==> m.dom().contains(x) by {
        if x == k {
            assert(ks[0] == k);
        }
    }
    lemma_sorted_keys(ks, m);
    assert(ks.drop_last() =~= Seq::<u64>::empty());
    assert(spec_entries(ks.drop_last(), m) == Ok::<Seq<u8>, ErrorView>(Seq::<u8>::empty()));
    assert(ks.last() == k);
    assert(m[k] == b);
    assert(spec_entries(ks, m) == then(Ok(Seq::<u8>::empty()), spec_entry(k, b)));
    if spec_entry(k, b) is Ok {
        assert(Seq::<u8>::empty() + spec_entry(k, b)->Ok_0 =~= spec_entry(k, b)->Ok_0);
    }
}

/// The parameters of a map with two keys, in increasing order.
pub proof fn lemma_wire_two(k1: u64, b1: Seq<u8>, k2: u64, b2: Seq<u8>)
    requires
        k1 < k2,
    ensures
        Parameters::spec_wire(Map::empty().insert(k1, b1).insert(k2, b2)) == then(
            spec_var_int(2),
            then(then(Ok(Seq::<u8>::empty()), spec_entry(k1, b1)), spec_entry(k2, b2)),
        ),
{
    let m = Map::<u64, Seq<u8>>::empty().insert(k1, b1).insert(k2, b2);
    let ks = seq![k1, k2];
    assert(m.dom() =~= Set::<u64>::empty().insert(k1).insert(k2));
    assert(m.dom().len() == 2);
    assert forall|x: u64| #[trigger] ks.contains(x) <==> m.dom().contains(x) by {
        if x == k1 {
            assert(ks[0] == k1);
        }
        if x == k2 {
            assert(ks[1] == k2);
        }
    }
    lemma_sorted_keys(ks, m);
    assert(ks.drop_last() =~= seq![k1]);
    assert(seq![k1].drop_last() =~= Seq::<u64>::empty());
    assert(m[k1] == b1);
    assert(m[k2] == b2);
    assert(spec_entries(seq![k1].drop_last(), m) == Ok::<Seq<u8>, ErrorView>(Seq::<u8>::empty()));
    assert(seq![k1].last() == k1);
    assert(ks.last() == k2);
    assert(spec_entries(seq![k1], m) == then(Ok(Seq::<u8>::empty()), spec_entry(k1, b1)));
    assert(spec_entries(ks, m) == then(spec_entries(seq![k1], m), spec_entry(k2, b2)));
}

/// Reading `n` parameters of a message whose only known parameter is the
/// authorization info (key 2): a second one is refused with `dup`; the values
/// of other keys are stepped over when `skip` holds, and left in place
/// otherwise.
pub open spec fn spec_read_auth_params(
    s: Seq<u8>,
    off: int,
    n: nat,
    auth: Option<Seq<char>>,
    dup: Seq<char>,
    skip: bool,
) -> Result<(Option<Seq<char>>, int), ErrorView>
    decreases n,
{
    if n == 0 {
        Ok((auth, off))
    } else {
        match spec_read_var_int(s, off) {
            Ok((key, p1)) => match spec_read_var_usize(s, p1) {
                Ok((size, p2)) => if p2 + size > s.len() {
                    Err(ErrorView::ErrBufferTooShort)
                } else if key == 2 {
                    if auth is Some {
                        Err(ErrorView::ErrParseError(ErrorCode::ProtocolViolation, dup))
                    } else if valid_utf8(s.subrange(p2, p2 + size)) {
                        spec_read_auth_params(
                            s,
                            p2 + size,
                            (n - 1) as nat,
                            Some(decode_utf8(s.subrange(p2, p2 + size))),
                            dup,
                            skip,
                        )
                    } else {
                        Err(ErrorView::ErrInvalidString)
                    }
                } else {
                    spec_read_auth_params(
                        s,
                        if skip {
                            p2 + size
                        } else {
                            p2
                        },
                        (n - 1) as nat,
                        auth,
                        dup,
                        skip,
                    )
                },
                Err(e) => Err(e),
            },
            Err(e) => Err(e),
        }
    }
}

/// The characters of an optional string.
pub open spec fn opt_view(o: Option<String>) -> Option<Seq<char>> {
    match o {
        Some(s) => Some(s@),
        None => None,
    }
}

/// An optional string read, with the position after it.
pub open spec fn opt_outcome(
    res: Result<(Option<String>, usize), Error>,
    spec: Result<(Option<Seq<char>>, int), ErrorView>,
) -> bool {
    match spec {
        Ok((v, p)) => res matches Ok((x, q)) && opt_view(x) == v && q == p,
        Err(e) => res matches Err(x) && x@ == e,
    }
}

pub fn read_auth_params(r: &[u8], pos: usize, n: u64, dup: &str, skip: bool) -> (res: Result<
    (Option<String>, usize),
    Error,
>)
    ensures
        opt_outcome(res, spec_read_auth_params(r@, pos as int, n as nat, None, dup@, skip)),
{
    let mut auth: Option<String> = None;
    let mut p = pos;
    let mut i: u64 = 0;
    while i < n
        invariant
            i <= n,
            spec_read_auth_params(r@, pos as int, n as nat, None, dup@, skip)
                == spec_read_auth_params(r@, p as int, (n - i) as nat, opt_view(auth), dup@, skip),
        decreases n - i,
    {
        let (key, p1) = match read_var_int(r, p) {
            Ok(x) => x,
            Err(e) => return Err(e),
        };
        let (size, p2) = match read_var_usize(r, p1) {
            Ok(x) => x,
            Err(e) => return Err(e),
        };
        if r.len() - p2 < size {
            return Err(Error::ErrBufferTooShort);
        }
        if key == 2 {
            if auth.is_some() {
                return Err(Error::ErrParseError(ErrorCode::ProtocolViolation, text(dup)));
            }
            let buf = copy_range(r, p2, p2 + size);
            match string_from_utf8(buf) {
                Ok(value) => {
                    auth = Some(value);
                },
                Err(e) => return Err(Error::ErrInvalidString(e)),
            }
            p = p2 + size;
        } else if skip {
            p = p2 + size;
        } else {
            p = p2;
        }
        i = i + 1;
    }
    Ok((auth, p))
}

/// Reading `n` parameters whose values are all stepped over.
pub open spec fn spec_skip_params(s: Seq<u8>, off: int, n: nat) -> Result<int, ErrorView>
    decreases n,
{
    if n == 0 {
        Ok(off)
    } else {
        match spec_read_var_int(s, off) {
            Ok((_key, p1)) => match spec_read_var_usize(s, p1) {
                Ok((size, p2)) => if p2 + size > s.len() {
                    Err(ErrorView::ErrBufferTooShort)
                } else {
                    spec_skip_params(s, p2 + size, (n - 1) as nat)
                },
                Err(e) => Err(e),
            },
            Err(e) => Err(e),
        }
    }
}

pub fn skip_params(r: &[u8], pos: usize, n: u64) -> (res: Result<usize, Error>)
    ensures
        match spec_skip_params(r@, pos as int, n as nat) {
            Ok(p) => res matches Ok(q) && q == p,
            Err(e) => res matches Err(x) && x@ == e,
        },
{
    let mut p = pos;
    let mut i: u64 = 0;
    while i < n
        invariant
            i <= n,
            spec_skip_params(r@, pos as int, n as nat) == spec_skip_params(
                r@,
                p as int,
                (n - i) as nat,
            ),
        decreases n - i,
    {
        let (_key, p1) = match read_var_int(r, p) {
            Ok(x) => x,
            Err(e) => return Err(e),
        };
        let (size, p2) = match read_var_usize(r, p1) {
            Ok(x) => x,
            Err(e) => return Err(e),
        };
        if r.len() - p2 < size {
            return Err(Error::ErrBufferTooShort);
        }
        p = p2 + size;
        i = i + 1;
    }
    Ok(p)
}

/// Reading `n` parameters of a setup message: a role (key 0), taken once and
/// whose length must be that of its encoding, and a path (key 1), taken
/// once from a client and refused from a server; other keys are left in
/// place.
pub open spec fn spec_read_setup_params(
    s: Seq<u8>,
    off: int,
    n: nat,
    role: Option<Role>,
    path: Option<Seq<char>>,
    client: bool,
) -> Result<(Option<Role>, Option<Seq<char>>, int), ErrorView>
    decreases n,
{
    if n == 0 {
        Ok((role, path, off))
    } else {
        match spec_read_var_int(s, off) {
            Ok((key, p1)) => match spec_read_var_usize(s, p1) {
                Ok((size, p2)) => if p2 + size > s.len() {
                    Err(ErrorView::ErrBufferTooShort)
                } else if key == 0 {
                    if role is Some {
                        Err(parse_err(ErrorCode::ProtocolViolation, "ROLE parameter appears twice in SETUP"))
                    } else {
                        match spec_read_var_int(s, p2) {
                            Ok((v, p3)) => if p3 - p2 != size {
                                Err(
                                    parse_err(
                                        if client {
                                            ErrorCode::ParameterLengthMismatch
                                        } else {
                                            ErrorCode::ProtocolViolation
                                        },
                                        "Parameter length does not match varint encoding",
                                    ),
                                )
                            } else {
                                match Role::spec_try_from(v) {
                                    Ok(r) => spec_read_setup_params(
                                        s,
                                        p3,
                                        (n - 1) as nat,
                                        Some(r),
                                        path,
                                        client,
                                    ),
                                    Err(_) => Err(
                                        parse_err(ErrorCode::ProtocolViolation, "Invalid ROLE parameter"),
                                    ),
                                }
                            },
                            Err(e) => Err(e),
                        }
                    }
                } else if key == 1 {
                    if !client {
                        Err(parse_err(ErrorCode::ProtocolViolation, "PATH parameter in SERVER_SETUP"))
                    } else if path is Some {
                        Err(
                            parse_err(
                                ErrorCode::ProtocolViolation,
                                "PATH parameter appears twice in CLIENT_SETUP",
                            ),
                        )
                    } else if valid_utf8(s.subrange(p2, p2 + size)) {
                        spec_read_setup_params(
                            s,
                            p2 + size,
                            (n - 1) as nat,
                            role,
                            Some(decode_utf8(s.subrange(p2, p2 + size))),
                            client,
                        )
                    } else {
                        Err(ErrorView::ErrInvalidString)
                    }
                } else {
                    spec_read_setup_params(s, p2, (n - 1) as nat, role, path, client)
                },
                Err(e) => Err(e),
            },
            Err(e) => Err(e),
        }
    }
}

/// The parameters of a setup message, read: the role and path found, with
/// the position after them.
pub open spec fn setup_outcome(
    res: Result<(Option<Role>, Option<String>, usize), Error>,
    spec: Result<(Option<Role>, Option<Seq<char>>, int), ErrorView>,
) -> bool {
    match spec {
        Ok((role, path, p)) => res matches Ok((r2, p2, q)) && r2 == role && opt_view(p2) == path
            && q == p,
        Err(e) => res matches Err(x) && x@ == e,
    }
}

pub fn read_setup_params(r: &[u8], pos: usize, n: u64, client: bool) -> (res: Result<
    (Option<Role>, Option<String>, usize),
    Error,
>)
    ensures
        setup_outcome(res, spec_read_setup_params(r@, pos as int, n as nat, None, None, client)),
{
    let mut role: Option<Role> = None;
    let mut path: Option<String> = None;
    let mut p = pos;
    let mut i: u64 = 0;
    while i < n
        invariant
            i <= n,
            spec_read_setup_params(r@, pos as int, n as nat, None, None, client)
                == spec_read_setup_params(r@, p as int, (n - i) as nat, role, opt_view(path), client),
        decreases n - i,
    {
        let (key, p1) = match read_var_int(r, p) {
            Ok(x) => x,
            Err(e) => return Err(e),
        };
        let (size, p2) = match read_var_usize(r, p1) {
            Ok(x) => x,
            Err(e) => return Err(e),
        };
        if r.len() - p2 < size {
            return Err(Error::ErrBufferTooShort);
        }
        if key == 0 {
            if role.is_some() {
                return Err(
                    Error::ErrParseError(
                        ErrorCode::ProtocolViolation,
                        text("ROLE parameter appears twice in SETUP"),
                    ),
                );
            }
            let (v, p3) = match read_var_int(r, p2) {
                Ok(x) => x,
                Err(e) => return Err(e),
            };
            if p3 - p2 != size {
                let code = if client {
                    ErrorCode::ParameterLengthMismatch
                } else {
                    ErrorCode::ProtocolViolation
                };
                return Err(
                    Error::ErrParseError(
                        code,
                        text("Parameter length does not match varint encoding"),
                    ),
                );
            }
            match Role::try_from(v) {
                Ok(x) => {
                    role = Some(x);
                },
                Err(_) => {
                    return Err(
                        Error::ErrParseError(
                            ErrorCode::ProtocolViolation,
                            text("Invalid ROLE parameter"),
                        ),
                    );
                },
            }
            p = p3;
        } else if key == 1 {
            if !client {
                return Err(
                    Error::ErrParseError(
                        ErrorCode::ProtocolViolation,
                        text("PATH parameter in SERVER_SETUP"),
                    ),
                );
            }
            if path.is_some() {
                return Err(
                    Error::ErrParseError(
                        ErrorCode::ProtocolViolation,
                        text("PATH parameter appears twice in CLIENT_SETUP"),
                    ),
                );
            }
            let buf = copy_range(r, p2, p2 + size);
            match string_from_utf8(buf) {
                Ok(value) => {
                    path = Some(value);
                },
                Err(e) => return Err(Error::ErrInvalidString(e)),
            }
            p = p2 + size;
        } else {
            p = p2;
        }
        i = i + 1;
    }
    Ok((role, path, p))
}

/// A role inserted under a key is what removing that key gives back: the
/// bytes `insert` stores read back as the same role.
pub proof fn lemma_role_insert_remove(m: Map<u64, Seq<u8>>, key: ParameterKey, r: Role)
    ensures
        <Role as Serializer>::spec_serialize(r) is Ok,
        <Role as Deserializer>::spec_deserialize(
            m.insert(key.code(), <Role as Serializer>::spec_serialize(r)->Ok_0)[key.code()],
        ) == Ok::<(Role, int), ErrorView>((r, <Role as Serializer>::spec_serialize(r)->Ok_0.len() as int)),
{
    let b = Role::spec_wire(r)->Ok_0;
    assert(b.subrange(0, b.len() as int) =~= b);
    Role::lemma_roundtrip(r, Role::spec_wire(r)->Ok_0, 0);
    assert(m.insert(key.code(), b)[key.code()] == b);
}

/// A string inserted under a key is what removing that key gives back: the
/// bytes `insert` stores read back as the same string.
pub proof fn lemma_string_insert_remove(m: Map<u64, Seq<u8>>, key: ParameterKey, t: Seq<char>)
    requires
        <String as Serializer>::spec_serialize(t) is Ok,
        encode_utf8(t).len() <= usize::MAX,
    ensures
        <String as Deserializer>::spec_deserialize(
            m.insert(key.code(), <String as Serializer>::spec_serialize(t)->Ok_0)[key.code()],
        ) == Ok::<(Seq<char>, int), ErrorView>((t, <String as Serializer>::spec_serialize(t)->Ok_0.len() as int)),
{
    let b = spec_string(t)->Ok_0;
    assert(b.subrange(0, b.len() as int) =~= b);
    lemma_string_roundtrip(t, b, 0);
}

} // verus!
