//! Framing of debugger messages: a message is a line holding its decimal
//! command code followed by a line holding its JSON body.
use vstd::prelude::*;

use crate::proto::{cmd_code, MessageCMD};

verus! {

/// The byte that ends a line.
pub const NEWLINE: u8 = 10;

/// Whether a byte is an ASCII decimal digit.
pub open spec fn is_digit(b: u8) -> bool {
    48 <= b <= 57
}

/// Whether every byte of `s` is a decimal digit.
pub open spec fn all_digits(s: Seq<u8>) -> bool {
    forall|i: int| 0 <= i < s.len() ==> is_digit(#[trigger] s[i])
}

/// The number that a run of decimal digits denotes.
pub open spec fn digits_value(s: Seq<u8>) -> int
    decreases s.len(),
{
    if s.len() == 0 {
        0
    } else {
        digits_value(s.drop_last()) * 10 + (s.last() - 48)
    }
}

/// The decimal digits of a natural number, without leading zeros.
pub open spec fn decimal(n: nat) -> Seq<u8>
    decreases n,
{
    if n < 10 {
        seq![(48 + n) as u8]
    } else {
        decimal(n / 10).push((48 + n % 10) as u8)
    }
}

/// Whether a line starts with a sign.
pub open spec fn has_sign(line: Seq<u8>) -> bool {
    line.len() > 0 && (line[0] == 45u8 || line[0] == 43u8)
}

/// The part of a code line after its sign.
pub open spec fn unsigned_part(line: Seq<u8>) -> Seq<u8> {
    if has_sign(line) {
        line.drop_first()
    } else {
        line
    }
}

/// The 32-bit integer that a code line spells, if it spells one: an optional
/// sign followed by at least one digit, and nothing else.
pub open spec fn code_line_value(line: Seq<u8>) -> Option<int> {
    let digits = unsigned_part(line);
    let v = if has_sign(line) && line[0] == 45u8 {
        -digits_value(digits)
    } else {
        digits_value(digits)
    };
    if digits.len() == 0 || !all_digits(digits) {
        None
    } else if i32::MIN <= v <= i32::MAX {
        Some(v)
    } else {
        None
    }
}

/// The bytes of a message with command code `code` and body `body`.
pub open spec fn frame_bytes(code: nat, body: Seq<u8>) -> Seq<u8> {
    decimal(code) + seq![NEWLINE] + body + seq![NEWLINE]
}

/// A message cut out of the byte stream: its code line's value and its body.
#[derive(Debug)]
pub struct Frame {
    pub code: i32,
    pub body: Vec<u8>,
}

/// What a frame holds.
pub struct FrameView {
    pub code: int,
    pub body: Seq<u8>,
}

impl View for Frame {
    type V = FrameView;

    open spec fn view(&self) -> FrameView {
        FrameView { code: self.code as int, body: self.body@ }
    }
}

/// What the reader holds between reads: the unfinished line, and the code
/// of a message whose body line has not ended yet.
pub struct ReaderView {
    pub line: Seq<u8>,
    pub code: Option<int>,
}

/// Reassembles frames from the bytes of a connection, whatever the chunks
/// it arrives in.
#[derive(Debug)]
pub struct FrameReader {
    line: Vec<u8>,
    code: Option<i32>,
}

impl View for FrameReader {
    type V = ReaderView;

    closed spec fn view(&self) -> ReaderView {
        ReaderView {
            line: self.line@,
            code: match self.code {
                Some(c) => Some(c as int),
                None => None,
            },
        }
    }
}

/// A complete line, read in state `code`: when no code is pending, a line
/// that spells a code makes it pending and any other line is dropped; when a
/// code is pending, the line is the body of its frame.
pub open spec fn end_line(code: Option<int>, line: Seq<u8>) -> (Option<int>, Seq<FrameView>) {
    match code {
        None => (code_line_value(line), Seq::empty()),
        Some(c) => (None, seq![FrameView { code: c, body: line }]),
    }
}

/// The reader's state after `data` and the frames completed on the way.
pub open spec fn feed(st: ReaderView, data: Seq<u8>) -> (ReaderView, Seq<FrameView>)
    decreases data.len(),
{
    if data.len() == 0 {
        (st, Seq::empty())
    } else {
        let (s1, o1) = feed(st, data.drop_last());
        let b = data.last();
        if b == NEWLINE {
            let (c2, o2) = end_line(s1.code, s1.line);
            (ReaderView { line: Seq::empty(), code: c2 }, o1 + o2)
        } else {
            (ReaderView { line: s1.line.push(b), code: s1.code }, o1)
        }
    }
}

/// The state of a reader that has read nothing.
pub open spec fn fresh_reader() -> ReaderView {
    ReaderView { line: Seq::empty(), code: None }
}

proof fn lemma_digits_value_nonneg(s: Seq<u8>)
    requires
        all_digits(s),
    ensures
        digits_value(s) >= 0,
    decreases s.len(),
{
    if s.len() > 0 {
        lemma_digits_value_nonneg(s.drop_last());
    }
}

proof fn lemma_digits_prefix_le(s: Seq<u8>, k: int)
    requires
        all_digits(s),
        0 <= k <= s.len(),
    ensures
        digits_value(s.take(k)) <= digits_value(s),
    decreases s.len(),
{
    if k == s.len() {
        assert(s.take(k) =~= s);
    } else {
        let d = s.drop_last();
        lemma_digits_value_nonneg(d);
        lemma_digits_prefix_le(d, k);
        assert(d.take(k) =~= s.take(k));
    }
}

/// Reads the code that a line spells, as `str::parse::<i32>` does.
pub fn parse_code_line(line: &[u8]) -> (r: Option<i32>)
    ensures
        match r {
            Some(v) => code_line_value(line@) == Some(v as int),
            None => code_line_value(line@) is None,
        },
{
    let n = line.len();
    let signed = n > 0 && (line[0] == 45u8 || line[0] == 43u8);
    let negative = n > 0 && line[0] == 45u8;
    let start: usize = if signed {
        1
    } else {
        0
    };
    let ghost digits = unsigned_part(line@);
    assert(digits =~= line@.subrange(start as int, n as int));
    if start >= n {
        return None;
    }
    let mut acc: i64 = 0;
    let mut i: usize = start;
    while i < n
        invariant
            start <= i <= n,
            n == line@.len(),
            digits == unsigned_part(line@),
            negative == (has_sign(line@) && line@[0] == 45u8),
            digits =~= line@.subrange(start as int, n as int),
            all_digits(digits.take(i - start)),
            acc == digits_value(digits.take(i - start)),
            0 <= acc <= 2147483648,
        decreases n - i,
    {
        let b = line[i];
        if b < 48 || b > 57 {
            assert(!is_digit(digits[i - start]));
            assert(!all_digits(digits));
            return None;
        }
        proof {
            let t = digits.take(i - start + 1);
            assert(t.drop_last() =~= digits.take(i - start));
            assert(t.last() == b);
        }
        acc = acc * 10 + (b - 48) as i64;
        i = i + 1;
        if acc > 2147483648 {
            proof {
                assert(all_digits(digits.take(i - start))) by {
                    let t = digits.take(i - start);
                    assert forall|j: int| 0 <= j < t.len() implies is_digit(#[trigger] t[j]) by {
                        if j < t.len() - 1 {
                            assert(t[j] == digits.take(i - start - 1)[j]);
                        }
                    }
                }
                if all_digits(digits) {
                    lemma_digits_prefix_le(digits, i - start);
                }
            }
            return None;
        }
        proof {
            let t = digits.take(i - start);
            assert forall|j: int| 0 <= j < t.len() implies is_digit(#[trigger] t[j]) by {
                if j < t.len() - 1 {
                    assert(t[j] == digits.take(i - start - 1)[j]);
                }
            }
        }
    }
    assert(digits.take(n - start) =~= digits);
    if negative {
        Some((-acc) as i32)
    } else if acc <= 2147483647 {
        Some(acc as i32)
    } else {
        None
    }
}

/// The bytes that carry a message of kind `cmd` with JSON body `body`.
pub fn encode_frame(cmd: MessageCMD, body: &[u8]) -> (r: Vec<u8>)
    ensures
        r@ == frame_bytes(cmd_code(cmd) as nat, body@),
{
    let code = cmd.code();
    let mut out: Vec<u8> = Vec::new();
    if code >= 10 {
        out.push(48 + code / 10);
    }
    out.push(48 + code % 10);
    proof {
        let n = code as nat;
        if n >= 10 {
            assert(decimal(n / 10) == seq![(48 + n / 10) as u8]);
            assert(out@ =~= decimal(n));
        } else {
            assert(out@ =~= decimal(n));
        }
    }
    out.push(NEWLINE);
    let mut i: usize = 0;
    let ghost head = out@;
    while i < body.len()
        invariant
            i <= body@.len(),
            out@ == head + body@.take(i as int),
        decreases body@.len() - i,
    {
        out.push(body[i]);
        proof {
            assert(body@.take(i as int + 1) =~= body@.take(i as int).push(body@[i as int]));
        }
        i = i + 1;
    }
    out.push(NEWLINE);
    assert(body@.take(body@.len() as int) =~= body@);
    assert(out@ =~= frame_bytes(cmd_code(cmd) as nat, body@));
    out
}

impl FrameReader {
    /// A reader that has read nothing.
    pub fn new() -> (r: Self)
        ensures
            r@ == fresh_reader(),
    {
        FrameReader { line: Vec::new(), code: None }
    }

    /// Takes the next bytes of the connection and returns the frames they
    /// complete, in order.
    pub fn push_bytes(&mut self, data: &[u8]) -> (r: Vec<Frame>)
        ensures
            (final(self)@, r@.map_values(|f: Frame| f@)) == feed(old(self)@, data@),
    {
        let mut out: Vec<Frame> = Vec::new();
        let mut i: usize = 0;
        while i < data.len()
            invariant
                i <= data@.len(),
                (self@, out@.map_values(|f: Frame| f@)) == feed(old(self)@, data@.take(i as int)),
            decreases data@.len() - i,
        {
            let b = data[i];
            let ghost before = out@.map_values(|f: Frame| f@);
            proof {
                assert(data@.take(i as int + 1).drop_last() =~= data@.take(i as int));
            }
            if b == NEWLINE {
                let mut line: Vec<u8> = Vec::new();
                std::mem::swap(&mut line, &mut self.line);
                match self.code {
                    None => {
                        self.code = parse_code_line(line.as_slice());
                        assert(out@.map_values(|f: Frame| f@) =~= before + Seq::<FrameView>::empty());
                    },
                    Some(c) => {
                        self.code = None;
                        out.push(Frame { code: c, body: line });
                        assert(out@.map_values(|f: Frame| f@) =~= before + seq![
                            FrameView { code: c as int, body: line@ },
                        ]);
                    },
                }
            } else {
                self.line.push(b);
            }
            i = i + 1;
        }
        assert(data@.take(data@.len() as int) =~= data@);
        out
    }
}

proof fn lemma_decimal_digits(n: nat)
    ensures
        all_digits(decimal(n)),
        digits_value(decimal(n)) == n,
        1 <= decimal(n).len(),
        decimal(n)[0] != 45u8,
        decimal(n)[0] != 43u8,
        forall|i: int| 0 <= i < decimal(n).len() ==> #[trigger] decimal(n)[i] != NEWLINE,
    decreases n,
{
    if n < 10 {
        assert(decimal(n) == seq![(48 + n) as u8]);
        assert(decimal(n).last() == 48 + n);
        assert(decimal(n).drop_last() =~= Seq::<u8>::empty());
        assert(digits_value(Seq::<u8>::empty()) == 0);
        assert(digits_value(decimal(n)) == n);
    } else {
        lemma_decimal_digits(n / 10);
        let d = decimal(n / 10);
        assert(decimal(n).drop_last() =~= d);
        assert(decimal(n).last() == (48 + n % 10) as u8);
        assert(digits_value(decimal(n)) == digits_value(d) * 10 + (n % 10));
        assert((n / 10) * 10 + n % 10 == n);
        assert(digits_value(decimal(n)) == n);
        assert forall|i: int| 0 <= i < decimal(n).len() implies is_digit(#[trigger] decimal(n)[i]) by {
            if i < d.len() {
                assert(decimal(n)[i] == d[i]);
            }
        }
    }
}

proof fn lemma_feed_append(st: ReaderView, a: Seq<u8>, b: Seq<u8>)
    ensures
        feed(st, a + b) == ({
            let (s1, o1) = feed(st, a);
            let (s2, o2) = feed(s1, b);
            (s2, o1 + o2)
        }),
    decreases b.len(),
{
    if b.len() == 0 {
        assert(a + b =~= a);
        let (s1, o1) = feed(st, a);
        assert(o1 + Seq::<FrameView>::empty() =~= o1);
    } else {
        assert((a + b).drop_last() =~= a + b.drop_last());
        lemma_feed_append(st, a, b.drop_last());
        let (s1, o1) = feed(st, a);
        let (s2, o2) = feed(s1, b.drop_last());
        if b.last() == NEWLINE {
            let (c3, o3) = end_line(s2.code, s2.line);
            assert(o1 + o2 + o3 =~= o1 + (o2 + o3));
        }
    }
}

proof fn lemma_feed_line(st: ReaderView, line: Seq<u8>)
    requires
        forall|i: int| 0 <= i < line.len() ==> #[trigger] line[i] != NEWLINE,
    ensures
        feed(st, line) == (ReaderView { line: st.line + line, code: st.code }, Seq::<FrameView>::empty()),
    decreases line.len(),
{
    if line.len() == 0 {
        assert(st.line + line =~= st.line);
    } else {
        assert(line.last() == line[line.len() - 1]);
        assert(line.last() != NEWLINE);
        assert forall|i: int| 0 <= i < line.drop_last().len() implies #[trigger] line.drop_last()[i] != NEWLINE by {
            assert(line.drop_last()[i] == line[i]);
        }
        lemma_feed_line(st, line.drop_last());
        assert((st.line + line.drop_last()).push(line.last()) =~= st.line + line);
    }
}

proof fn lemma_feed_newline(st: ReaderView, line: Seq<u8>)
    requires
        forall|i: int| 0 <= i < line.len() ==> #[trigger] line[i] != NEWLINE,
    ensures
        feed(st, line.push(NEWLINE)) == ({
            let (c, o) = end_line(st.code, st.line + line);
            (ReaderView { line: Seq::empty(), code: c }, o)
        }),
{
    lemma_feed_line(st, line);
    assert(line.push(NEWLINE).drop_last() =~= line);
    let (c, o) = end_line(st.code, st.line + line);
    assert(Seq::<FrameView>::empty() + o =~= o);
}

proof fn lemma_decimal_code_line(n: nat)
    requires
        n <= i32::MAX,
    ensures
        code_line_value(decimal(n)) == Some(n as int),
{
    lemma_decimal_digits(n);
    assert(!has_sign(decimal(n)));
}

/// Reading the bytes of a message, from a reader in its initial state,
/// gives back exactly that message's code and body and leaves the reader in
/// its initial state, for every kind and every body without a line break;
/// framing the frame read gives back the same bytes.
pub proof fn lemma_frame_round_trip(cmd: MessageCMD, body: Seq<u8>)
    requires
        forall|i: int| 0 <= i < body.len() ==> #[trigger] body[i] != NEWLINE,
    ensures
        feed(fresh_reader(), frame_bytes(cmd_code(cmd) as nat, body)) == (
            fresh_reader(),
            seq![FrameView { code: cmd_code(cmd), body }],
        ),
        ({
            let f = feed(fresh_reader(), frame_bytes(cmd_code(cmd) as nat, body)).1[0];
            frame_bytes(f.code as nat, f.body) == frame_bytes(cmd_code(cmd) as nat, body)
        }),
{
    let n = cmd_code(cmd) as nat;
    let d = decimal(n);
    lemma_decimal_digits(n);
    lemma_decimal_code_line(n);
    let st0 = fresh_reader();
    let first = d.push(NEWLINE);
    let second = body.push(NEWLINE);
    assert(frame_bytes(n, body) =~= first + second);
    lemma_feed_append(st0, first, second);
    lemma_feed_newline(st0, d);
    assert(st0.line + d =~= d);
    let s1 = ReaderView { line: Seq::empty(), code: Some(n as int) };
    lemma_feed_newline(s1, body);
    assert(s1.line + body =~= body);
    let f = seq![FrameView { code: n as int, body }];
    assert(Seq::<FrameView>::empty() + f =~= f);
}

} // verus!
