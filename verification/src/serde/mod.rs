//! Encoding of the basic wire types (booleans, strings, raw bytes) and the
//! shared vocabulary of the contracts of every encoder and decoder.
use crate::error::{Error, ErrorView};
use std::string::FromUtf8Error;
use vstd::prelude::*;
use vstd::utf8::{decode_utf8, encode_utf8, valid_utf8};

pub mod parameters;
pub mod varint;

use varint::{
    read_var_int, read_var_usize, spec_read_var_int, spec_read_var_usize, spec_var_int, write_var_int,
    write_var_usize,
};

verus! {

/// `new` is `old` followed by what `spec` says was written, and `res`
/// reports its length; or both report the same error, and `new` extends
/// `old` by whatever was written before the failure.
pub open spec fn wrote(
    old: Seq<u8>,
    new: Seq<u8>,
    res: Result<usize, Error>,
    spec: Result<Seq<u8>, ErrorView>,
) -> bool {
    match spec {
        Ok(b) => res matches Ok(n) && n == b.len() && new == old + b,
        Err(e) => res matches Err(x) && x@ == e && extends(old, new),
    }
}

/// `new` begins with `old`.
pub open spec fn extends(old: Seq<u8>, new: Seq<u8>) -> bool {
    &&& old.len() <= new.len()
    &&& forall|i: int| 0 <= i < old.len() ==> new[i] == old[i]
}

/// `res` is what `spec` says a read gives: the value (by its view) with the
/// position after it, or the same error.
pub open spec fn read_outcome<T: View>(
    res: Result<(T, usize), Error>,
    spec: Result<(T::V, int), ErrorView>,
) -> bool {
    match spec {
        Ok((v, p)) => res matches Ok((x, q)) && x@ == v && q == p,
        Err(e) => res matches Err(x) && x@ == e,
    }
}

/// Writes one field after another: the bytes of both, or the first error.
pub open spec fn then(a: Result<Seq<u8>, ErrorView>, b: Result<Seq<u8>, ErrorView>) -> Result<
    Seq<u8>,
    ErrorView,
> {
    match a {
        Ok(x) => match b {
            Ok(y) => Ok(x + y),
            Err(e) => Err(e),
        },
        Err(e) => Err(e),
    }
}

/// `b` stands in `s` at `off`.
pub open spec fn at(s: Seq<u8>, off: int, b: Seq<u8>) -> bool {
    &&& 0 <= off
    &&& off + b.len() <= s.len()
    &&& s.subrange(off, off + b.len()) == b
}

/// Two pieces that stand one after the other in `s` where their
/// concatenation stands.
pub proof fn lemma_at_split(s: Seq<u8>, off: int, a: Seq<u8>, b: Seq<u8>)
    requires
        at(s, off, a + b),
    ensures
        at(s, off, a),
        at(s, off + a.len(), b),
{
    let whole = s.subrange(off, off + a.len() + b.len());
    assert(whole == a + b);
    assert(s.subrange(off, off + a.len()) =~= whole.subrange(0, a.len() as int));
    assert(whole.subrange(0, a.len() as int) =~= a);
    assert(s.subrange(off + a.len(), off + a.len() + b.len()) =~= whole.subrange(
        a.len() as int,
        (a.len() + b.len()) as int,
    ));
    assert(whole.subrange(a.len() as int, (a.len() + b.len()) as int) =~= b);
}

/// Where a value with a given encoding is written: the output, then that
/// encoding.
pub proof fn lemma_at_end(old: Seq<u8>, b: Seq<u8>)
    ensures
        at(old + b, old.len() as int, b),
{
    assert((old + b).subrange(old.len() as int, (old.len() + b.len()) as int) =~= b);
}

/// One more field written after `acc`: on success the output is `old`
/// followed by `acc` and the field; on failure the whole write fails with the
/// field's error.
pub proof fn lemma_then_step(
    old: Seq<u8>,
    acc: Seq<u8>,
    new: Seq<u8>,
    r: Result<usize, Error>,
    spec: Result<Seq<u8>, ErrorView>,
)
    requires
        wrote(old + acc, new, r, spec),
    ensures
        spec matches Ok(b) ==> new == old + (acc + b),
        spec is Err ==> wrote(old, new, r, then(Ok(acc), spec)),
{
    if spec is Ok {
        assert(new =~= old + (acc + spec->Ok_0));
    } else {
        assert forall|i: int| 0 <= i < old.len() implies new[i] == old[i] by {
            assert((old + acc)[i] == old[i]);
        }
    }
}

/// The first field written: the output is `old` followed by it.
pub proof fn lemma_first_step(
    old: Seq<u8>,
    new: Seq<u8>,
    r: Result<usize, Error>,
    spec: Result<Seq<u8>, ErrorView>,
)
    requires
        wrote(old, new, r, spec),
    ensures
        spec matches Ok(b) ==> new == old + b,
{
}

/// A vector never holds more than `usize::MAX` items.
pub proof fn lemma_vec_len(w: &Vec<u8>)
    ensures
        w@.len() <= usize::MAX,
{
    assert(w@.len() == w.len());
}

/// A value that can be written to a byte buffer.
pub trait Serializer: View {
    /// The bytes that writing a value with this view appends, or the error.
    spec fn spec_serialize(v: Self::V) -> Result<Seq<u8>, ErrorView>;

    fn serialize(&self, w: &mut Vec<u8>) -> (res: Result<usize, Error>)
        ensures
            wrote(old(w)@, final(w)@, res, Self::spec_serialize(self@)),
    ;
}

/// A value that can be read from the start of a byte buffer.
pub trait Deserializer: View + Sized {
    /// What reading gives: the view of the value and the number of bytes it
    /// took, or the error.
    spec fn spec_deserialize(s: Seq<u8>) -> Result<(Self::V, int), ErrorView>;

    fn deserialize(r: &[u8]) -> (res: Result<(Self, usize), Error>)
        ensures
            read_outcome(res, Self::spec_deserialize(r@)),
    ;
}

impl Serializer for u64 {
    open spec fn spec_serialize(v: u64) -> Result<Seq<u8>, ErrorView> {
        spec_var_int(v)
    }

    fn serialize(&self, w: &mut Vec<u8>) -> (res: Result<usize, Error>) {
        write_var_int(*self, w)
    }
}

impl Deserializer for u64 {
    open spec fn spec_deserialize(s: Seq<u8>) -> Result<(u64, int), ErrorView> {
        spec_read_var_int(s, 0)
    }

    fn deserialize(r: &[u8]) -> (res: Result<(u64, usize), Error>) {
        read_var_int(r, 0)
    }
}

impl Serializer for usize {
    open spec fn spec_serialize(v: usize) -> Result<Seq<u8>, ErrorView> {
        spec_var_int(v as u64)
    }

    fn serialize(&self, w: &mut Vec<u8>) -> (res: Result<usize, Error>) {
        write_var_usize(*self, w)
    }
}

impl Deserializer for usize {
    open spec fn spec_deserialize(s: Seq<u8>) -> Result<(usize, int), ErrorView> {
        spec_read_var_usize(s, 0)
    }

    fn deserialize(r: &[u8]) -> (res: Result<(usize, usize), Error>) {
        read_var_usize(r, 0)
    }
}

// ---------------------------------------------------------------------------
// Booleans: one byte, 0 or 1.
/// The byte of a boolean.
pub open spec fn bool_byte(b: bool) -> u8 {
    if b {
        1
    } else {
        0
    }
}

/// Reading a boolean at `off`.
pub open spec fn spec_read_bool(s: Seq<u8>, off: int) -> Result<(bool, int), ErrorView> {
    if off < 0 || off >= s.len() {
        Err(ErrorView::ErrBufferTooShort)
    } else if s[off] == 0 {
        Ok((false, off + 1))
    } else if s[off] == 1 {
        Ok((true, off + 1))
    } else {
        Err(ErrorView::ErrInvalidBooleanValue(s[off]))
    }
}

pub fn write_bool(b: bool, w: &mut Vec<u8>) -> (res: Result<usize, Error>)
    ensures
        wrote(old(w)@, final(w)@, res, Ok(seq![bool_byte(b)])),
{
    let ghost old_w = w@;
    w.push(if b {
        1u8
    } else {
        0u8
    });
    proof {
        assert(w@ == old_w + seq![bool_byte(b)]);
    }
    Ok(1)
}

pub fn read_bool(r: &[u8], pos: usize) -> (res: Result<(bool, usize), Error>)
    ensures
        read_outcome(res, spec_read_bool(r@, pos as int)),
{
    if pos >= r.len() {
        return Err(Error::ErrBufferTooShort);
    }
    let b = r[pos];
    if b == 0 {
        Ok((false, pos + 1))
    } else if b == 1 {
        Ok((true, pos + 1))
    } else {
        Err(Error::ErrInvalidBooleanValue(b))
    }
}

pub proof fn lemma_bool_roundtrip(b: bool, s: Seq<u8>, off: int)
    requires
        at(s, off, seq![bool_byte(b)]),
    ensures
        spec_read_bool(s, off) == Ok::<(bool, int), ErrorView>((b, off + 1)),
{
    assert(s[off] == s.subrange(off, off + 1)[0]);
}

impl Serializer for bool {
    open spec fn spec_serialize(v: bool) -> Result<Seq<u8>, ErrorView> {
        Ok(seq![bool_byte(v)])
    }

    fn serialize(&self, w: &mut Vec<u8>) -> (res: Result<usize, Error>) {
        write_bool(*self, w)
    }
}

impl Deserializer for bool {
    open spec fn spec_deserialize(s: Seq<u8>) -> Result<(bool, int), ErrorView> {
        spec_read_bool(s, 0)
    }

    fn deserialize(r: &[u8]) -> (res: Result<(bool, usize), Error>) {
        read_bool(r, 0)
    }
}

// ---------------------------------------------------------------------------
// Raw bytes: written as they are; reading takes all that is left.
pub proof fn lemma_append_bytes(old: Seq<u8>, data: Seq<u8>, i: int)
    requires
        0 <= i < data.len(),
    ensures
        (old + data.subrange(0, i)).push(data[i]) == old + data.subrange(0, i + 1),
{
    assert((old + data.subrange(0, i)).push(data[i]) =~= old + data.subrange(0, i + 1));
}

/// Appends `data` to `w`.
pub fn append_bytes(data: &[u8], w: &mut Vec<u8>)
    ensures
        final(w)@ == old(w)@ + data@,
{
    let ghost old_w = w@;
    let mut i: usize = 0;
    while i < data.len()
        invariant
            i <= data@.len(),
            w@ == old_w + data@.subrange(0, i as int),
        decreases data@.len() - i,
    {
        proof {
            lemma_append_bytes(old_w, data@, i as int);
        }
        w.push(data[i]);
        i = i + 1;
    }
    assert(data@.subrange(0, data@.len() as int) =~= data@);
}

/// Copies `r[from..to]` into a new vector.
pub fn copy_range(r: &[u8], from: usize, to: usize) -> (out: Vec<u8>)
    requires
        from <= to <= r@.len(),
    ensures
        out@ == r@.subrange(from as int, to as int),
{
    let mut out: Vec<u8> = Vec::new();
    append_bytes(&r[from..to], &mut out);
    assert(out@ =~= r@.subrange(from as int, to as int));
    out
}

impl Serializer for Vec<u8> {
    open spec fn spec_serialize(v: Seq<u8>) -> Result<Seq<u8>, ErrorView> {
        Ok(v)
    }

    fn serialize(&self, w: &mut Vec<u8>) -> (res: Result<usize, Error>) {
        append_bytes(self.as_slice(), w);
        Ok(self.len())
    }
}

impl Deserializer for Vec<u8> {
    open spec fn spec_deserialize(s: Seq<u8>) -> Result<(Seq<u8>, int), ErrorView> {
        Ok((s, s.len() as int))
    }

    fn deserialize(r: &[u8]) -> (res: Result<(Vec<u8>, usize), Error>) {
        let out = copy_range(r, 0, r.len());
        assert(r@.subrange(0, r@.len() as int) =~= r@);
        Ok((out, r.len()))
    }
}

// ---------------------------------------------------------------------------
// Strings: a variable-length byte count, then the UTF-8 bytes.
/// Decodes UTF-8 bytes into a string with `String::from_utf8`.
/// Trusted: it succeeds exactly on valid UTF-8, and the string holds the
/// characters those bytes encode, as the standard library documents.
#[verifier::external_body]
pub(crate) fn string_from_utf8(bytes: Vec<u8>) -> (res: Result<String, FromUtf8Error>)
    ensures
        res is Ok <==> valid_utf8(bytes@),
        res matches Ok(s) ==> s@ == decode_utf8(bytes@),
{
    String::from_utf8(bytes)
}

/// What writing a string appends.
pub open spec fn spec_string(s: Seq<char>) -> Result<Seq<u8>, ErrorView> {
    then(spec_var_int(encode_utf8(s).len() as u64), Ok(encode_utf8(s)))
}

/// Reading a string at `off`.
pub open spec fn spec_read_string(s: Seq<u8>, off: int) -> Result<(Seq<char>, int), ErrorView> {
    match spec_read_var_usize(s, off) {
        Ok((n, p)) => if p + n > s.len() {
            Err(ErrorView::ErrBufferTooShort)
        } else if valid_utf8(s.subrange(p, p + n)) {
            Ok((decode_utf8(s.subrange(p, p + n)), p + n))
        } else {
            Err(ErrorView::ErrInvalidString)
        },
        Err(e) => Err(e),
    }
}

/// The length of a byte slice, with `<[u8]>::len`.
/// Trusted: the length is that of the slice's contents, and no slice holds
/// more than `isize::MAX` bytes, as the standard library documents.
#[verifier::external_body]
pub(crate) fn slice_len(data: &[u8]) -> (n: usize)
    ensures
        n == data@.len(),
        n <= isize::MAX,
{
    data.len()
}

/// A string's encoding read back gives the string, wherever it stands.
pub proof fn lemma_string_roundtrip(t: Seq<char>, s: Seq<u8>, off: int)
    requires
        spec_string(t) is Ok,
        encode_utf8(t).len() <= usize::MAX,
        at(s, off, spec_string(t)->Ok_0),
    ensures
        spec_read_string(s, off) == Ok::<(Seq<char>, int), ErrorView>(
            (t, off + spec_string(t)->Ok_0.len()),
        ),
{
    let bytes = encode_utf8(t);
    let n = bytes.len() as u64;
    let vb = varint::var_int_bytes(n);
    varint::lemma_var_int_len(n);
    lemma_at_split(s, off, vb, bytes);
    varint::lemma_var_int_roundtrip(n, s, off);
    vstd::utf8::encode_utf8_valid_utf8(t);
    vstd::utf8::encode_utf8_decode_utf8(t);
}

pub fn write_string(s: &String, w: &mut Vec<u8>) -> (res: Result<usize, Error>)
    ensures
        wrote(old(w)@, final(w)@, res, spec_string(s@)),
{
    let text = s.as_str();
    let bytes = text.as_bytes();
    assert(bytes@ == encode_utf8(s@));
    let len = slice_len(bytes);
    let ghost old_w = w@;
    let l = match write_var_usize(len, w) {
        Ok(l) => l,
        Err(e) => return Err(e),
    };
    let ghost mid = w@;
    proof {
        varint::lemma_var_int_len(bytes.len() as u64);
    }
    append_bytes(bytes, w);
    proof {
        let vb = varint::var_int_bytes(len as u64);
        assert(w@ =~= old_w + (vb + bytes@));
    }
    Ok(l + len)
}

pub fn read_string(r: &[u8], pos: usize) -> (res: Result<(String, usize), Error>)
    ensures
        read_outcome(res, spec_read_string(r@, pos as int)),
{
    let (size, p) = match read_var_usize(r, pos) {
        Ok(x) => x,
        Err(e) => return Err(e),
    };
    if r.len() - p < size {
        return Err(Error::ErrBufferTooShort);
    }
    let buf = copy_range(r, p, p + size);
    match string_from_utf8(buf) {
        Ok(s) => Ok((s, p + size)),
        Err(e) => Err(Error::ErrInvalidString(e)),
    }
}

impl Serializer for String {
    open spec fn spec_serialize(v: Seq<char>) -> Result<Seq<u8>, ErrorView> {
        spec_string(v)
    }

    fn serialize(&self, w: &mut Vec<u8>) -> (res: Result<usize, Error>) {
        write_string(self, w)
    }
}

impl Deserializer for String {
    open spec fn spec_deserialize(s: Seq<u8>) -> Result<(Seq<char>, int), ErrorView> {
        spec_read_string(s, 0)
    }

    fn deserialize(r: &[u8]) -> (res: Result<(String, usize), Error>) {
        read_string(r, 0)
    }
}

// ---------------------------------------------------------------------------
// Runs of numbers.
/// What writing the numbers `vs` one after another appends.
pub open spec fn var_chain(vs: Seq<u64>) -> Result<Seq<u8>, ErrorView>
    decreases vs.len(),
{
    if vs.len() == 0 {
        Ok(Seq::empty())
    } else {
        then(var_chain(vs.drop_last()), spec_var_int(vs.last()))
    }
}

/// Writing two runs of numbers one after the other is writing their
/// concatenation.
pub proof fn lemma_var_chain_concat(a: Seq<u64>, b: Seq<u64>)
    ensures
        var_chain(a + b) == then(var_chain(a), var_chain(b)),
    decreases b.len(),
{
    if b.len() == 0 {
        assert(a + b =~= a);
        if var_chain(a) is Ok {
            assert(var_chain(a)->Ok_0 + Seq::<u8>::empty() =~= var_chain(a)->Ok_0);
        }
    } else {
        lemma_var_chain_concat(a, b.drop_last());
        assert((a + b).drop_last() =~= a + b.drop_last());
        assert((a + b).last() == b.last());
        if var_chain(a) is Ok && var_chain(b.drop_last()) is Ok && spec_var_int(b.last()) is Ok {
            let x = var_chain(a)->Ok_0;
            let y = var_chain(b.drop_last())->Ok_0;
            let z = spec_var_int(b.last())->Ok_0;
            assert(x + y + z =~= x + (y + z));
        }
    }
}

/// The `i`-th number of a run written at `off` is read back where the
/// numbers before it end, and ends where the numbers up to it end.
pub proof fn lemma_var_chain_read_at(vs: Seq<u64>, s: Seq<u8>, off: int, i: int)
    requires
        var_chain(vs) is Ok,
        at(s, off, var_chain(vs)->Ok_0),
        0 <= i < vs.len(),
    ensures
        var_chain(vs.take(i)) is Ok,
        var_chain(vs.take(i + 1)) is Ok,
        varint::spec_read_var_int(s, off + var_chain(vs.take(i))->Ok_0.len()) == Ok::<
            (u64, int),
            ErrorView,
        >((vs[i], off + var_chain(vs.take(i + 1))->Ok_0.len())),
{
    let front = vs.take(i + 1);
    let back = vs.skip(i + 1);
    assert(front + back =~= vs);
    lemma_var_chain_concat(front, back);
    assert(front.drop_last() =~= vs.take(i));
    assert(front.last() == vs[i]);
    let a = var_chain(vs.take(i))->Ok_0;
    let v = spec_var_int(vs[i])->Ok_0;
    let r = var_chain(back)->Ok_0;
    assert(var_chain(vs)->Ok_0 == a + v + r);
    assert(a + v + r =~= (a + v) + r);
    lemma_at_split(s, off, a + v, r);
    lemma_at_split(s, off, a, v);
    varint::lemma_u64_roundtrip(vs[i], s, off + a.len());
}

/// Once the numbers written so far fail, the whole run fails the same way.
pub proof fn lemma_var_chain_prefix(vs: Seq<u64>, j: int)
    requires
        0 <= j <= vs.len(),
        var_chain(vs.take(j)) is Err,
    ensures
        var_chain(vs) == var_chain(vs.take(j)),
    decreases vs.len(),
{
    if j == vs.len() {
        assert(vs.take(j) =~= vs);
    } else {
        assert(vs.drop_last().take(j) =~= vs.take(j));
        lemma_var_chain_prefix(vs.drop_last(), j);
    }
}

/// Writes the numbers of `vs` one after another.
pub fn write_var_chain(vs: &Vec<u64>, w: &mut Vec<u8>) -> (res: Result<usize, Error>)
    ensures
        wrote(old(w)@, final(w)@, res, var_chain(vs@)),
{
    let ghost old_w = w@;
    let ghost mut acc: Seq<u8> = Seq::empty();
    let mut total: usize = 0;
    let mut i: usize = 0;
    proof {
        assert(vs@.take(0) =~= Seq::<u64>::empty());
        assert(old_w + acc =~= old_w);
    }
    while i < vs.len()
        invariant
            i <= vs@.len(),
            old_w == old(w)@,
            w@ == old_w + acc,
            total == acc.len(),
            var_chain(vs@.take(i as int)) == Ok::<Seq<u8>, ErrorView>(acc),
        decreases vs@.len() - i,
    {
        let r = write_var_int(vs[i], w);
        proof {
            lemma_then_step(old_w, acc, w@, r, spec_var_int(vs@[i as int]));
            lemma_vec_len(w);
            assert(vs@.take(i + 1).drop_last() =~= vs@.take(i as int));
            assert(vs@.take(i + 1).last() == vs@[i as int]);
            if spec_var_int(vs@[i as int]) is Err {
                lemma_var_chain_prefix(vs@, i + 1);
            }
        }
        let l = match r {
            Ok(l) => l,
            Err(e) => return Err(e),
        };
        proof {
            acc = acc + spec_var_int(vs@[i as int])->Ok_0;
        }
        total = total + l;
        i = i + 1;
    }
    proof {
        assert(vs@.take(vs@.len() as int) =~= vs@);
    }
    Ok(total)
}

/// Reading `n` more numbers at `off`, after those in `acc`.
pub open spec fn spec_read_var_chain(s: Seq<u8>, off: int, n: nat, acc: Seq<u64>) -> Result<
    (Seq<u64>, int),
    ErrorView,
>
    decreases n,
{
    if n == 0 {
        Ok((acc, off))
    } else {
        match spec_read_var_int(s, off) {
            Ok((v, p)) => spec_read_var_chain(s, p, (n - 1) as nat, acc.push(v)),
            Err(e) => Err(e),
        }
    }
}

/// A run of numbers written and read back is the same run.
pub proof fn lemma_var_chain_roundtrip(vs: Seq<u64>, s: Seq<u8>, off: int, acc: Seq<u64>)
    requires
        var_chain(vs) is Ok,
        at(s, off, var_chain(vs)->Ok_0),
    ensures
        spec_read_var_chain(s, off, vs.len(), acc) == Ok::<(Seq<u64>, int), ErrorView>(
            (acc + vs, off + var_chain(vs)->Ok_0.len()),
        ),
    decreases vs.len(),
{
    if vs.len() == 0 {
        assert(acc + vs =~= acc);
    } else {
        let front = vs.drop_last();
        let a = var_chain(front)->Ok_0;
        let b = spec_var_int(vs.last())->Ok_0;
        lemma_at_split(s, off, a, b);
        lemma_var_chain_roundtrip(front, s, off, acc);
        varint::lemma_u64_roundtrip(vs.last(), s, off + a.len());
        lemma_read_var_chain_step(s, off, front.len(), acc, off + a.len(), acc + front);
        assert(acc + front + seq![vs.last()] =~= acc + vs);
        assert((acc + front).push(vs.last()) =~= acc + vs);
    }
}

/// Reading one more number after a run that was read.
pub proof fn lemma_read_var_chain_step(s: Seq<u8>, off: int, n: nat, acc: Seq<u64>, p: int, got: Seq<u64>)
    requires
        spec_read_var_chain(s, off, n, acc) == Ok::<(Seq<u64>, int), ErrorView>((got, p)),
    ensures
        spec_read_var_chain(s, off, n + 1, acc) == match spec_read_var_int(s, p) {
            Ok((v, q)) => Ok::<(Seq<u64>, int), ErrorView>((got.push(v), q)),
            Err(e) => Err(e),
        },
    decreases n,
{
    if n > 0 {
        match spec_read_var_int(s, off) {
            Ok((v, q)) => {
                lemma_read_var_chain_step(s, q, (n - 1) as nat, acc.push(v), p, got);
                assert(((n + 1) - 1) as nat == ((n - 1) as nat) + 1);
            },
            Err(e) => {},
        }
    } else {
        assert(got == acc && p == off);
        match spec_read_var_int(s, p) {
            Ok((v, q)) => {
                assert(spec_read_var_chain(s, q, 0, acc.push(v)) == Ok::<(Seq<u64>, int), ErrorView>(
                    (acc.push(v), q),
                ));
            },
            Err(e) => {},
        }
    }
}

/// Reads `n` numbers at `pos`.
pub fn read_var_chain(r: &[u8], pos: usize, n: usize) -> (res: Result<(Vec<u64>, usize), Error>)
    ensures
        read_outcome(res, spec_read_var_chain(r@, pos as int, n as nat, Seq::empty())),
{
    let mut out: Vec<u64> = Vec::new();
    let mut p = pos;
    let mut i: usize = 0;
    while i < n
        invariant
            i <= n,
            spec_read_var_chain(r@, pos as int, n as nat, Seq::empty()) == spec_read_var_chain(
                r@,
                p as int,
                (n - i) as nat,
                out@,
            ),
        decreases n - i,
    {
        let (v, q) = match read_var_int(r, p) {
            Ok(x) => x,
            Err(e) => return Err(e),
        };
        out.push(v);
        p = q;
        i = i + 1;
    }
    Ok((out, p))
}

} // verus!
