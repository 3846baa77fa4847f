//! The LSP header grammar: zero or more `name: value` lines, each terminated
//! by `\r\n`, closed by an empty `\r\n` line. `Content-Length` (required,
//! case-insensitive, decimal value, leading zeroes allowed) gives the byte
//! length of the body that follows the empty line; `Content-Type` and unknown
//! headers are tolerated and ignored. The grammar is defined here as spec
//! functions over byte sequences, and the executable parser is proved to
//! follow them exactly.
use vstd::prelude::*;

verus! {

// ---------------------------------------------------------------------------
// Byte classes
// ---------------------------------------------------------------------------
/// ASCII whitespace tolerated before a header name.
pub open spec fn is_ws(b: u8) -> bool {
    b == 32 || (9 <= b && b <= 13)
}

/// Horizontal space trimmed between the colon and the value.
pub open spec fn is_hs(b: u8) -> bool {
    b == 32 || b == 9
}

pub open spec fn is_digit(b: u8) -> bool {
    48 <= b && b <= 57
}

/// ASCII lower-casing, for case-insensitive header names.
pub open spec fn lower(b: u8) -> u8 {
    if 65 <= b && b <= 90 {
        (b + 32) as u8
    } else {
        b
    }
}

/// `a` and `t` agree letter for letter, ignoring ASCII case.
pub open spec fn ci_eq(a: Seq<u8>, t: Seq<u8>) -> bool {
    a.len() == t.len() && forall|i: int| 0 <= i < a.len() ==> lower(#[trigger] a[i]) == lower(t[i])
}

/// The bytes of `content-length`.
pub open spec fn content_length_name() -> Seq<u8> {
    seq![99u8, 111u8, 110u8, 116u8, 101u8, 110u8, 116u8, 45u8, 108u8, 101u8, 110u8, 103u8, 116u8, 104u8]
}

/// The bytes of `content-type`.
pub open spec fn content_type_name() -> Seq<u8> {
    seq![99u8, 111u8, 110u8, 116u8, 101u8, 110u8, 116u8, 45u8, 116u8, 121u8, 112u8, 101u8]
}

// ---------------------------------------------------------------------------
// Scanning helpers
// ---------------------------------------------------------------------------
/// A `\r\n` pair starts at position `m` of `b`.
pub open spec fn crlf_at(b: Seq<u8>, m: int) -> bool {
    0 <= m && m + 1 < b.len() && b[m] == 13 && b[m + 1] == 10
}

/// The least position `j >= i` where a `\r\n` pair starts, if any.
pub open spec fn find_crlf(b: Seq<u8>, i: int) -> Option<int>
    decreases b.len() - i,
{
    if i + 1 >= b.len() {
        None
    } else if crlf_at(b, i) {
        Some(i)
    } else {
        find_crlf(b, i + 1)
    }
}

pub proof fn lemma_find_crlf(b: Seq<u8>, i: int)
    ensures
        match find_crlf(b, i) {
            Some(j) => i <= j && crlf_at(b, j) && forall|m: int| i <= m < j ==> !crlf_at(b, m),
            None => forall|m: int| i <= m ==> !crlf_at(b, m),
        },
    decreases b.len() - i,
{
    if i + 1 >= b.len() {
    } else if crlf_at(b, i) {
    } else {
        lemma_find_crlf(b, i + 1);
    }
}

/// The first position at or after `k` whose byte is not ASCII whitespace.
pub open spec fn skip_ws_spec(c: Seq<u8>, k: int) -> int
    decreases c.len() - k,
{
    if 0 <= k < c.len() && is_ws(c[k]) {
        skip_ws_spec(c, k + 1)
    } else {
        k
    }
}

/// The first position at or after `k` whose byte is not horizontal space.
pub open spec fn skip_hs_spec(c: Seq<u8>, k: int) -> int
    decreases c.len() - k,
{
    if 0 <= k < c.len() && is_hs(c[k]) {
        skip_hs_spec(c, k + 1)
    } else {
        k
    }
}

/// The least position `j >= i` with `c[j] == t`, if any.
pub open spec fn find_byte(c: Seq<u8>, i: int, t: u8) -> Option<int>
    decreases c.len() - i,
{
    if i >= c.len() {
        None
    } else if 0 <= i && c[i] == t {
        Some(i)
    } else {
        find_byte(c, i + 1, t)
    }
}

// ---------------------------------------------------------------------------
// Decimal values
// ---------------------------------------------------------------------------
pub open spec fn all_digits(v: Seq<u8>) -> bool {
    forall|i: int| 0 <= i < v.len() ==> is_digit(#[trigger] v[i])
}

/// The number written by the digit string `v`, most significant digit first.
pub open spec fn dec_val(v: Seq<u8>) -> int
    decreases v.len(),
{
    if v.len() == 0 {
        0
    } else {
        dec_val(v.drop_last()) * 10 + v.last() - 48
    }
}

/// `Content-Length` values: a non-empty digit string whose value fits in
/// `usize`; leading zeroes are allowed.
pub open spec fn parse_dec(v: Seq<u8>) -> Option<int> {
    if v.len() > 0 && all_digits(v) && 0 <= dec_val(v) <= usize::MAX {
        Some(dec_val(v))
    } else {
        None
    }
}

pub proof fn lemma_dec_val_nonneg(v: Seq<u8>)
    requires
        all_digits(v),
    ensures
        dec_val(v) >= 0,
    decreases v.len(),
{
    if v.len() > 0 {
        assert(all_digits(v.drop_last())) by {
            assert(forall|i: int| 0 <= i < v.len() - 1 ==> v.drop_last()[i] == #[trigger] v[i]);
        }
        lemma_dec_val_nonneg(v.drop_last());
    }
}

/// More digits never shrink the value: the value of a digit string is at
/// least the value of any of its prefixes.
pub proof fn lemma_dec_val_mono(v: Seq<u8>, k: int)
    requires
        all_digits(v),
        0 <= k <= v.len(),
    ensures
        dec_val(v) >= dec_val(v.subrange(0, k)),
    decreases v.len(),
{
    lemma_dec_val_nonneg(v);
    if k == v.len() {
        assert(v.subrange(0, k) =~= v);
    } else {
        assert(all_digits(v.drop_last())) by {
            assert(forall|i: int| 0 <= i < v.len() - 1 ==> v.drop_last()[i] == #[trigger] v[i]);
        }
        lemma_dec_val_mono(v.drop_last(), k);
        assert(v.drop_last().subrange(0, k) =~= v.subrange(0, k));
        lemma_dec_val_nonneg(v.drop_last());
        assert(dec_val(v) >= dec_val(v.drop_last()));
    }
}

// ---------------------------------------------------------------------------
// Header lines
// ---------------------------------------------------------------------------
/// What one complete header line says.
pub enum SpecHeader {
    /// A `Content-Length` line with its value.
    Length(int),
    /// A `Content-Type` line with its raw value bytes.
    Ctype(Seq<u8>),
    /// Any other well-formed `name: value` line.
    Other,
    /// A `Content-Length` line whose value is not a usable number.
    Invalid,
}

/// Parse one header line (the bytes between line start and its `\r\n`).
/// Leading whitespace is skipped, the name runs to the first colon,
/// horizontal space after the colon is trimmed, the value runs to the end.
/// `None` means the line has no colon and the stream is corrupt.
pub open spec fn parse_line(c: Seq<u8>) -> Option<SpecHeader> {
    let k = skip_ws_spec(c, 0);
    match find_byte(c, k, 58) {
        None => None,
        Some(ci) => {
            let name = c.subrange(k, ci);
            let vs = skip_hs_spec(c, ci + 1);
            let value = c.subrange(vs, c.len() as int);
            Some(
                if ci_eq(name, content_length_name()) {
                    match parse_dec(value) {
                        Some(n) => SpecHeader::Length(n),
                        None => SpecHeader::Invalid,
                    }
                } else if ci_eq(name, content_type_name()) {
                    SpecHeader::Ctype(value)
                } else {
                    SpecHeader::Other
                },
            )
        },
    }
}

/// Why a header block was rejected.
#[derive(Clone, Copy, Debug, PartialEq, Eq, Structural)]
pub enum HeaderFault {
    /// A line before the empty terminator line has no colon.
    Syntax,
    /// A `Content-Length` value is not a non-negative decimal that fits.
    BadLength,
    /// The header block ended with no `Content-Length` at all.
    MissingLength,
}

/// The outcome of reading the header block of a frame.
pub enum SpecHeaders {
    /// More bytes are needed before anything can be decided.
    Incomplete,
    /// The header block is malformed; the stream is corrupt.
    Malformed(HeaderFault),
    /// The headers are complete: the body is `length` bytes from `body_start`.
    Done { length: int, body_start: int },
}

/// Read header lines from position `i`, remembering the first
/// `Content-Length` seen in `found`, until the empty line.
pub open spec fn headers_from(b: Seq<u8>, i: int, found: Option<int>) -> SpecHeaders
    decreases b.len() - i,
{
    match find_crlf(b, i) {
        None => SpecHeaders::Incomplete,
        Some(j) => if j == i {
            match found {
                Some(n) => SpecHeaders::Done { length: n, body_start: i + 2 },
                None => SpecHeaders::Malformed(HeaderFault::MissingLength),
            }
        } else {
            proof {
                lemma_find_crlf(b, i);
            }
            match parse_line(b.subrange(i, j)) {
                None => SpecHeaders::Malformed(HeaderFault::Syntax),
                Some(SpecHeader::Invalid) => SpecHeaders::Malformed(HeaderFault::BadLength),
                Some(SpecHeader::Length(n)) => headers_from(
                    b,
                    j + 2,
                    if found is Some {
                        found
                    } else {
                        Some(n)
                    },
                ),
                Some(_) => headers_from(b, j + 2, found),
            }
        },
    }
}

/// The header block of a whole buffer.
pub open spec fn headers_spec(b: Seq<u8>) -> SpecHeaders {
    headers_from(b, 0, None::<int>)
}

// ---------------------------------------------------------------------------
// Whole frames
// ---------------------------------------------------------------------------
/// The outcome of decoding one frame from the front of a buffer.
pub enum SpecFrame {
    /// More bytes are needed; nothing may be consumed.
    Incomplete,
    /// The stream is corrupt and must be closed.
    Malformed(HeaderFault),
    /// One complete frame: its body bytes, and how many bytes of the buffer
    /// it occupies (headers plus body).
    Frame { body: Seq<u8>, consumed: int },
}

/// Decode one frame from the front of `b`: the header block, then exactly
/// `Content-Length` bytes of body.
pub open spec fn decode_spec(b: Seq<u8>) -> SpecFrame {
    match headers_spec(b) {
        SpecHeaders::Incomplete => SpecFrame::Incomplete,
        SpecHeaders::Malformed(f) => SpecFrame::Malformed(f),
        SpecHeaders::Done { length, body_start } => if body_start + length <= b.len() {
            SpecFrame::Frame {
                body: b.subrange(body_start, body_start + length),
                consumed: body_start + length,
            }
        } else {
            SpecFrame::Incomplete
        },
    }
}

// ---------------------------------------------------------------------------
// Laws of the decoder
// ---------------------------------------------------------------------------
pub proof fn lemma_find_crlf_found(b: Seq<u8>, i: int, j: int)
    requires
        i <= j,
        crlf_at(b, j),
        forall|m: int| i <= m < j ==> !crlf_at(b, m),
    ensures
        find_crlf(b, i) == Some(j),
    decreases j - i,
{
    if i < j {
        assert(!crlf_at(b, i));
        lemma_find_crlf_found(b, i + 1, j);
    }
}

pub proof fn lemma_find_byte_found(c: Seq<u8>, i: int, t: u8, j: int)
    requires
        0 <= i <= j < c.len(),
        c[j] == t,
        forall|m: int| i <= m < j ==> c[m] != t,
    ensures
        find_byte(c, i, t) == Some(j),
    decreases j - i,
{
    if i < j {
        lemma_find_byte_found(c, i + 1, t, j);
    }
}

/// A finished header block ends within the buffer, past its first line, and
/// announces a length that fits in `usize`.
pub proof fn lemma_headers_bounds(b: Seq<u8>, i: int, f: Option<int>)
    requires
        0 <= i <= b.len(),
        headers_from(b, i, f) matches SpecHeaders::Done { length, body_start },
        f matches Some(n) ==> 0 <= n <= usize::MAX,
    ensures
        headers_from(b, i, f) matches SpecHeaders::Done { length, body_start } ==> i + 2
            <= body_start <= b.len() && 0 <= length <= usize::MAX,
    decreases b.len() - i,
{
    lemma_find_crlf(b, i);
    match find_crlf(b, i) {
        Some(j) => {
            if j != i {
                match parse_line(b.subrange(i, j)) {
                    Some(SpecHeader::Length(n)) => {
                        lemma_headers_bounds(
                            b,
                            j + 2,
                            if f is Some {
                                f
                            } else {
                                Some(n)
                            },
                        );
                    },
                    Some(SpecHeader::Ctype(_)) => {
                        lemma_headers_bounds(b, j + 2, f);
                    },
                    Some(SpecHeader::Other) => {
                        lemma_headers_bounds(b, j + 2, f);
                    },
                    _ => {},
                }
            }
        },
        None => {},
    }
}

/// Scanning a header block reads only the bytes before the body: any buffer
/// that agrees on those bytes is read the same way.
pub proof fn lemma_headers_depend(b1: Seq<u8>, b2: Seq<u8>, i: int, f: Option<int>)
    requires
        0 <= i,
        headers_from(b1, i, f) matches SpecHeaders::Done { length, body_start },
        headers_from(b1, i, f)->Done_body_start <= b2.len(),
        f matches Some(n) ==> 0 <= n <= usize::MAX,
        forall|m: int|
            i <= m < headers_from(b1, i, f)->Done_body_start ==> m < b1.len() && m < b2.len()
                && b1[m] == #[trigger] b2[m],
    ensures
        headers_from(b2, i, f) == headers_from(b1, i, f),
    decreases b1.len() - i,
{
    lemma_find_crlf(b1, i);
    let j = find_crlf(b1, i)->Some_0;
    assert(i <= b1.len());
    lemma_headers_bounds(b1, i, f);
    let done = headers_from(b1, i, f);
    let body_start = done->Done_body_start;
    if j == i {
        // the empty line: body_start == i + 2
        assert(crlf_at(b2, i));
        lemma_find_crlf_found(b2, i, i);
    } else {
        // one header line, then the rest of the block
        let rest = match parse_line(b1.subrange(i, j)) {
            Some(SpecHeader::Length(n)) => headers_from(
                b1,
                j + 2,
                if f is Some {
                    f
                } else {
                    Some(n)
                },
            ),
            _ => headers_from(b1, j + 2, f),
        };
        assert(rest == done);
        lemma_headers_bounds(
            b1,
            j + 2,
            match parse_line(b1.subrange(i, j)) {
                Some(SpecHeader::Length(n)) => if f is Some {
                    f
                } else {
                    Some(n)
                },
                _ => f,
            },
        );
        assert(j + 4 <= body_start);
        assert(crlf_at(b2, j));
        assert(forall|m: int| i <= m < j ==> !crlf_at(b2, m)) by {
            assert(forall|m: int| i <= m < j ==> !crlf_at(b1, m));
            assert(forall|m: int| i <= m < j && crlf_at(b2, m) ==> crlf_at(b1, m));
        }
        lemma_find_crlf_found(b2, i, j);
        assert(b2.subrange(i, j) =~= b1.subrange(i, j));
        match parse_line(b1.subrange(i, j)) {
            Some(SpecHeader::Length(n)) => {
                lemma_headers_depend(
                    b1,
                    b2,
                    j + 2,
                    if f is Some {
                        f
                    } else {
                        Some(n)
                    },
                );
            },
            Some(SpecHeader::Ctype(_)) => {
                lemma_headers_depend(b1, b2, j + 2, f);
            },
            Some(SpecHeader::Other) => {
                lemma_headers_depend(b1, b2, j + 2, f);
            },
            _ => {},
        }
    }
}

/// Cutting a buffer anywhere before the body start leaves the header scan
/// incomplete.
pub proof fn lemma_headers_cut(b: Seq<u8>, k: int, i: int, f: Option<int>)
    requires
        0 <= i <= b.len(),
        headers_from(b, i, f) matches SpecHeaders::Done { length, body_start },
        i <= k < headers_from(b, i, f)->Done_body_start,
        k <= b.len(),
        f matches Some(n) ==> 0 <= n <= usize::MAX,
    ensures
        headers_from(b.subrange(0, k), i, f) is Incomplete,
    decreases b.len() - i,
{
    let p = b.subrange(0, k);
    lemma_find_crlf(b, i);
    let j = find_crlf(b, i)->Some_0;
    lemma_headers_bounds(b, i, f);
    if k <= j + 1 {
        // the line terminator at j is cut off: nothing complete remains
        assert(forall|m: int| i <= m ==> !crlf_at(p, m)) by {
            assert(forall|m: int| i <= m && crlf_at(p, m) ==> m + 1 < k && crlf_at(b, m) && m < j);
        }
        lemma_find_crlf(p, i);
        if find_crlf(p, i) is Some {
            let j2 = find_crlf(p, i)->Some_0;
            assert(crlf_at(p, j2));
            assert(false);
        }
    } else {
        // the whole line survives the cut
        assert(j != i) by {
            if j == i {
                assert(headers_from(b, i, f)->Done_body_start == i + 2);
            }
        }
        assert(crlf_at(p, j));
        assert(forall|m: int| i <= m < j ==> !crlf_at(p, m)) by {
            assert(forall|m: int| i <= m < j && crlf_at(p, m) ==> crlf_at(b, m));
        }
        lemma_find_crlf_found(p, i, j);
        assert(p.subrange(i, j) =~= b.subrange(i, j));
        match parse_line(b.subrange(i, j)) {
            Some(SpecHeader::Length(n)) => {
                lemma_headers_cut(
                    b,
                    k,
                    j + 2,
                    if f is Some {
                        f
                    } else {
                        Some(n)
                    },
                );
            },
            Some(SpecHeader::Ctype(_)) => {
                lemma_headers_cut(b, k, j + 2, f);
            },
            Some(SpecHeader::Other) => {
                lemma_headers_cut(b, k, j + 2, f);
            },
            _ => {},
        }
    }
}

/// Decoder partial-input monotonicity, first half: every strict prefix of a
/// buffer holding exactly one complete frame decodes to `Incomplete`, so the
/// decoder consumes nothing until the whole frame has arrived.
pub proof fn lemma_decode_prefix(m: Seq<u8>, k: int)
    requires
        decode_spec(m) matches SpecFrame::Frame { body, consumed },
        decode_spec(m)->Frame_consumed == m.len(),
        0 <= k < m.len(),
    ensures
        decode_spec(m.subrange(0, k)) is Incomplete,
{
    let done = headers_spec(m);
    let body_start = done->Done_body_start;
    let length = done->Done_length;
    lemma_headers_bounds(m, 0, None::<int>);
    if k < body_start {
        lemma_headers_cut(m, k, 0, None::<int>);
    } else {
        let p = m.subrange(0, k);
        lemma_headers_depend(m, p, 0, None::<int>);
        assert(body_start + length > k);
    }
}

/// Decoder partial-input monotonicity, second half: bytes arriving after a
/// complete frame change neither the frame nor how much is consumed.
pub proof fn lemma_decode_extend(m: Seq<u8>, x: Seq<u8>)
    requires
        decode_spec(m) matches SpecFrame::Frame { body, consumed },
    ensures
        decode_spec(m + x) == decode_spec(m),
{
    let done = headers_spec(m);
    let body_start = done->Done_body_start;
    let length = done->Done_length;
    lemma_headers_bounds(m, 0, None::<int>);
    lemma_headers_depend(m, m + x, 0, None::<int>);
    assert((m + x).subrange(body_start, body_start + length) =~= m.subrange(
        body_start,
        body_start + length,
    ));
}

/// Header tolerance: a well-formed header line that is not `Content-Length`
/// — an unknown name, or `Content-Type` with any value at all — is skipped
/// with no effect on what the header block says.
pub proof fn lemma_header_tolerance(b: Seq<u8>, i: int, f: Option<int>)
    requires
        find_crlf(b, i) matches Some(j),
        find_crlf(b, i)->Some_0 != i,
        match parse_line(b.subrange(i, find_crlf(b, i)->Some_0)) {
            Some(SpecHeader::Ctype(_)) => true,
            Some(SpecHeader::Other) => true,
            _ => false,
        },
    ensures
        headers_from(b, i, f) == headers_from(b, find_crlf(b, i)->Some_0 + 2, f),
{
}

/// Header tolerance for lengths: a `Content-Length` value keeps its meaning
/// under leading zeroes.
pub proof fn lemma_leading_zero(v: Seq<u8>)
    requires
        v.len() > 0,
    ensures
        parse_dec(seq![48u8] + v) == parse_dec(v),
{
    lemma_zero_prefix_val(v);
    assert(all_digits(seq![48u8] + v) == all_digits(v)) by {
        let z = seq![48u8] + v;
        if all_digits(v) {
            assert(forall|i: int| 0 <= i < z.len() ==> is_digit(#[trigger] z[i])) by {
                assert(forall|i: int| 1 <= i < z.len() ==> z[i] == v[i - 1]);
                assert(is_digit(z[0]));
            }
        } else {
            let w = choose|i: int| 0 <= i < v.len() && !is_digit(#[trigger] v[i]);
            assert(z[w + 1] == v[w]);
            assert(!is_digit(z[w + 1]));
        }
    }
}

proof fn lemma_zero_prefix_val(v: Seq<u8>)
    ensures
        dec_val(seq![48u8] + v) == dec_val(v),
    decreases v.len(),
{
    let z = seq![48u8] + v;
    if v.len() == 0 {
        assert(z =~= seq![48u8]);
        assert(dec_val(z) == dec_val(z.drop_last()) * 10 + z.last() - 48);
        assert(z.drop_last() =~= Seq::<u8>::empty());
    } else {
        assert(z.drop_last() =~= seq![48u8] + v.drop_last());
        assert(z.last() == v.last());
        lemma_zero_prefix_val(v.drop_last());
    }
}

// ---------------------------------------------------------------------------
// Executable parser
// ---------------------------------------------------------------------------
/// One parsed header line, as the executable parser reports it.
#[derive(Clone, Debug, PartialEq)]
pub enum HeaderType {
    ContentLengthHeader(usize),
    ContentTypeHeader(Vec<u8>),
    Other,
    Invalid,
}

/// The statement a `HeaderType` value makes, in the grammar's terms.
pub open spec fn header_abs(h: HeaderType) -> SpecHeader {
    match h {
        HeaderType::ContentLengthHeader(n) => SpecHeader::Length(n as int),
        HeaderType::ContentTypeHeader(v) => SpecHeader::Ctype(v@),
        HeaderType::Other => SpecHeader::Other,
        HeaderType::Invalid => SpecHeader::Invalid,
    }
}

fn lower_exec(b: u8) -> (r: u8)
    ensures
        r == lower(b),
{
    if 65 <= b && b <= 90 {
        b + 32
    } else {
        b
    }
}

fn find_crlf_exec(b: &[u8], from: usize) -> (r: Option<usize>)
    requires
        from <= b@.len(),
    ensures
        match r {
            Some(j) => {
                &&& find_crlf(b@, from as int) == Some(j as int)
                &&& from <= j
                &&& j + 1 < b@.len()
            },
            None => find_crlf(b@, from as int) is None,
        },
{
    let n = b.len();
    if n == 0 {
        return None;
    }
    let mut i = from;
    while i < n - 1
        invariant
            from <= i <= n,
            0 < n == b@.len(),
            find_crlf(b@, from as int) == find_crlf(b@, i as int),
        decreases n - i,
    {
        if b[i] == 13 && b[i + 1] == 10 {
            return Some(i);
        }
        i = i + 1;
    }
    None
}

fn skip_ws_exec(c: &[u8], from: usize) -> (r: usize)
    requires
        from <= c@.len(),
    ensures
        r == skip_ws_spec(c@, from as int),
        from <= r <= c@.len(),
{
    let n = c.len();
    let mut k = from;
    while k < n && (c[k] == 32 || (9 <= c[k] && c[k] <= 13))
        invariant
            from <= k <= n,
            n == c@.len(),
            skip_ws_spec(c@, from as int) == skip_ws_spec(c@, k as int),
        decreases n - k,
    {
        k = k + 1;
    }
    k
}

fn skip_hs_exec(c: &[u8], from: usize) -> (r: usize)
    requires
        from <= c@.len(),
    ensures
        r == skip_hs_spec(c@, from as int),
        from <= r <= c@.len(),
{
    let n = c.len();
    let mut k = from;
    while k < n && (c[k] == 32 || c[k] == 9)
        invariant
            from <= k <= n,
            n == c@.len(),
            skip_hs_spec(c@, from as int) == skip_hs_spec(c@, k as int),
        decreases n - k,
    {
        k = k + 1;
    }
    k
}

fn find_byte_exec(c: &[u8], from: usize, t: u8) -> (r: Option<usize>)
    requires
        from <= c@.len(),
    ensures
        match r {
            Some(j) => {
                &&& find_byte(c@, from as int, t) == Some(j as int)
                &&& from <= j < c@.len()
            },
            None => find_byte(c@, from as int, t) is None,
        },
{
    let n = c.len();
    let mut i = from;
    while i < n
        invariant
            from <= i <= n,
            n == c@.len(),
            find_byte(c@, from as int, t) == find_byte(c@, i as int, t),
        decreases n - i,
    {
        if c[i] == t {
            return Some(i);
        }
        i = i + 1;
    }
    None
}

fn ci_eq_exec(a: &[u8], t: &[u8]) -> (r: bool)
    ensures
        r == ci_eq(a@, t@),
{
    if a.len() != t.len() {
        return false;
    }
    let n = a.len();
    let mut k: usize = 0;
    while k < n
        invariant
            0 <= k <= n,
            n == a@.len() == t@.len(),
            forall|m: int| 0 <= m < k ==> lower(#[trigger] a@[m]) == lower(t@[m]),
        decreases n - k,
    {
        if lower_exec(a[k]) != lower_exec(t[k]) {
            return false;
        }
        k = k + 1;
    }
    true
}

fn parse_dec_exec(v: &[u8]) -> (r: Option<usize>)
    ensures
        match r {
            Some(n) => parse_dec(v@) == Some(n as int),
            None => parse_dec(v@) is None,
        },
{
    if v.len() == 0 {
        return None;
    }
    let n = v.len();
    let mut acc: usize = 0;
    let mut k: usize = 0;
    while k < n
        invariant
            0 <= k <= n,
            n == v@.len(),
            all_digits(v@.subrange(0, k as int)),
            acc as int == dec_val(v@.subrange(0, k as int)),
        decreases n - k,
    {
        let d = v[k];
        if !(48 <= d && d <= 57) {
            assert(!all_digits(v@)) by {
                assert(!is_digit(v@[k as int]));
            }
            return None;
        }
        let dv = (d - 48) as usize;
        let ghost prefix = v@.subrange(0, k as int);
        let ghost step = v@.subrange(0, k as int + 1);
        proof {
            assert(step.drop_last() =~= prefix);
            assert(step.last() == v@[k as int]);
            assert(dec_val(step) == dec_val(prefix) * 10 + d - 48);
            assert(all_digits(step));
        }
        if acc > (usize::MAX - dv) / 10 {
            proof {
                let q = ((usize::MAX - dv) as int) / 10;
                assert((usize::MAX - dv) as int == 10 * q + ((usize::MAX - dv) as int) % 10) by {
                    vstd::arithmetic::div_mod::lemma_fundamental_div_mod(
                        (usize::MAX - dv) as int,
                        10,
                    );
                }
                assert(acc as int * 10 >= (q + 1) * 10) by (nonlinear_arith)
                    requires
                        acc as int >= q + 1,
                ;
                assert(dec_val(step) > usize::MAX);
                if parse_dec(v@) is Some {
                    lemma_dec_val_mono(v@, k as int + 1);
                    assert(false);
                }
            }
            return None;
        }
        proof {
            let q = ((usize::MAX - dv) as int) / 10;
            assert((usize::MAX - dv) as int == 10 * q + ((usize::MAX - dv) as int) % 10) by {
                vstd::arithmetic::div_mod::lemma_fundamental_div_mod((usize::MAX - dv) as int, 10);
            }
            assert(acc as int * 10 <= q * 10) by (nonlinear_arith)
                requires
                    acc as int <= q,
            ;
            assert(acc as int * 10 + dv <= usize::MAX);
        }
        acc = acc * 10 + dv;
        k = k + 1;
    }
    assert(v@.subrange(0, n as int) =~= v@);
    Some(acc)
}

fn parse_line_exec(line: &[u8]) -> (r: Option<HeaderType>)
    ensures
        match r {
            Some(h) => parse_line(line@) == Some(header_abs(h)),
            None => parse_line(line@) is None,
        },
{
    let n = line.len();
    let k = skip_ws_exec(line, 0);
    match find_byte_exec(line, k, 58) {
        None => None,
        Some(ci) => {
            let name = vstd::slice::slice_subrange(line, k, ci);
            let vs = skip_hs_exec(line, ci + 1);
            let value = vstd::slice::slice_subrange(line, vs, n);
            let cl_target: [u8; 14] = [99, 111, 110, 116, 101, 110, 116, 45, 108, 101, 110, 103, 116, 104];
            let ct_target: [u8; 12] = [99, 111, 110, 116, 101, 110, 116, 45, 116, 121, 112, 101];
            proof {
                assert(cl_target@ =~= content_length_name());
                assert(ct_target@ =~= content_type_name());
            }
            if ci_eq_exec(name, cl_target.as_slice()) {
                match parse_dec_exec(value) {
                    Some(n) => Some(HeaderType::ContentLengthHeader(n)),
                    None => Some(HeaderType::Invalid),
                }
            } else if ci_eq_exec(name, ct_target.as_slice()) {
                Some(HeaderType::ContentTypeHeader(vstd::slice::slice_to_vec(value)))
            } else {
                Some(HeaderType::Other)
            }
        },
    }
}

/// Parse one header line from the front of `i`: the line's statement and how
/// many bytes it spans, terminator included. `None` means the line is
/// incomplete or has no colon.
pub fn header(i: &[u8]) -> (r: Option<(HeaderType, usize)>)
    ensures
        ({
            let fc = find_crlf(i@, 0);
            match r {
                Some(p) => fc matches Some(j) && p.1 == j + 2 && parse_line(i@.subrange(0, j))
                    == Some(header_abs(p.0)),
                None => fc is None || (fc matches Some(j) && (j == 0 || parse_line(
                    i@.subrange(0, j),
                ) is None)),
            }
        }),
{
    let _n = i.len();
    match find_crlf_exec(i, 0) {
        None => None,
        Some(j) => {
            if j == 0 {
                return None;
            }
            let line = vstd::slice::slice_subrange(i, 0, j);
            match parse_line_exec(line) {
                None => None,
                Some(h) => Some((h, j + 2)),
            }
        },
    }
}

/// The header block's outcome: the first `Content-Length` and where the body
/// starts. `None` means the block is incomplete or malformed.
pub struct Headers {
    pub content_length: usize,
}

/// Spec-level twin of `Option<usize>` as tracked by the header scan.
pub open spec fn opt_int(o: Option<usize>) -> Option<int> {
    match o {
        Some(n) => Some(n as int),
        None => None,
    }
}

/// Read a whole header block from the front of `i`.
pub fn headers(i: &[u8]) -> (r: Option<(Headers, usize)>)
    ensures
        match r {
            Some(p) => headers_spec(i@) matches SpecHeaders::Done { length, body_start }
                && p.0.content_length as int == length && p.1 as int == body_start,
            None => !(headers_spec(i@) is Done),
        },
{
    let n = i.len();
    let mut pos: usize = 0;
    let mut found: Option<usize> = None;
    loop
        invariant
            pos <= n == i@.len(),
            headers_spec(i@) == headers_from(i@, pos as int, opt_int(found)),
        decreases i@.len() - pos,
    {
        match find_crlf_exec(i, pos) {
            None => {
                return None;
            },
            Some(j) => {
                if j == pos {
                    match found {
                        None => {
                            return None;
                        },
                        Some(n) => {
                            return Some((Headers { content_length: n }, pos + 2));
                        },
                    }
                } else {
                    let line = vstd::slice::slice_subrange(i, pos, j);
                    match parse_line_exec(line) {
                        None => {
                            return None;
                        },
                        Some(HeaderType::Invalid) => {
                            return None;
                        },
                        Some(HeaderType::ContentLengthHeader(n)) => {
                            if found.is_none() {
                                found = Some(n);
                            }
                            pos = j + 2;
                        },
                        Some(_) => {
                            pos = j + 2;
                        },
                    }
                }
            },
        }
    }
}

/// The first `size` bytes of `i`, if that many are buffered.
pub fn content<'a>(i: &'a [u8], size: usize) -> (r: Option<&'a [u8]>)
    ensures
        match r {
            Some(s) => size <= i@.len() && s@ == i@.subrange(0, size as int),
            None => size > i@.len(),
        },
{
    if size <= i.len() {
        Some(vstd::slice::slice_subrange(i, 0, size))
    } else {
        None
    }
}

/// Parse one whole framed message from the front of `i`: the header block,
/// then exactly `Content-Length` bytes of body handed to the JSON parser.
/// `None` means no complete frame is buffered or the headers are malformed.
pub fn message(i: &[u8]) -> (r: Option<Result<serde_json::Value, serde_json::Error>>)
    ensures
        ({
            let d = decode_spec(i@);
            match r {
                Some(inner) => d matches SpecFrame::Frame { body, consumed } && (match inner {
                    Ok(v) => crate::json::parse_of(body) == Some(v),
                    Err(_) => crate::json::parse_of(body) is None,
                }),
                None => !(d is Frame),
            }
        }),
{
    match decode_frame(i) {
        FrameOutcome::Frame { body, consumed: _ } => Some(
            crate::json::parse_value(body.as_slice()),
        ),
        FrameOutcome::NeedMore => None,
        FrameOutcome::Corrupt(_) => None,
    }
}

/// The outcome of decoding one frame from the front of a byte buffer.
pub enum FrameOutcome {
    /// More bytes are needed; nothing was consumed.
    NeedMore,
    /// The header block is malformed; the stream is corrupt.
    Corrupt(HeaderFault),
    /// One complete frame: its body, and the bytes it occupies in the buffer.
    Frame { body: Vec<u8>, consumed: usize },
}

/// Decode one frame (header block plus body) from the front of `b`.
pub fn decode_frame(b: &[u8]) -> (r: FrameOutcome)
    ensures
        match r {
            FrameOutcome::NeedMore => decode_spec(b@) is Incomplete,
            FrameOutcome::Corrupt(f) => decode_spec(b@) == SpecFrame::Malformed(f),
            FrameOutcome::Frame { body, consumed } => decode_spec(b@) == (SpecFrame::Frame {
                body: body@,
                consumed: consumed as int,
            }) && consumed <= b@.len(),
        },
{
    let n = b.len();
    let mut pos: usize = 0;
    let mut found: Option<usize> = None;
    loop
        invariant
            pos <= n == b@.len(),
            headers_spec(b@) == headers_from(b@, pos as int, opt_int(found)),
        decreases b@.len() - pos,
    {
        match find_crlf_exec(b, pos) {
            None => {
                return FrameOutcome::NeedMore;
            },
            Some(j) => {
                if j == pos {
                    match found {
                        None => {
                            return FrameOutcome::Corrupt(HeaderFault::MissingLength);
                        },
                        Some(n) => {
                            let body_start = pos + 2;
                            if n <= b.len() - body_start {
                                let body = vstd::slice::slice_to_vec(
                                    vstd::slice::slice_subrange(b, body_start, body_start + n),
                                );
                                return FrameOutcome::Frame { body, consumed: body_start + n };
                            } else {
                                return FrameOutcome::NeedMore;
                            }
                        },
                    }
                } else {
                    let line = vstd::slice::slice_subrange(b, pos, j);
                    match parse_line_exec(line) {
                        None => {
                            return FrameOutcome::Corrupt(HeaderFault::Syntax);
                        },
                        Some(HeaderType::Invalid) => {
                            return FrameOutcome::Corrupt(HeaderFault::BadLength);
                        },
                        Some(HeaderType::ContentLengthHeader(n)) => {
                            if found.is_none() {
                                found = Some(n);
                            }
                            pos = j + 2;
                        },
                        Some(_) => {
                            pos = j + 2;
                        },
                    }
                }
            },
        }
    }
}

} // verus!
