//! Request parsing: a request is a text line, trimmed of surrounding
//! whitespace and split into a command token and at most one argument at
//! the first space. The commands are `version`, `stop`, `execute <hex>`
//! and `execute_asm <text>`; any other shape is invalid.
//!
//! The request grammar is ASCII, so parsing works on the raw bytes:
//! trimming removes the ASCII whitespace bytes only (a multi-byte
//! Unicode space is left in place), and invalid UTF-8 can only ever
//! sit inside an argument, which is carried
//! through as raw bytes; text decoding happens solely where the driver
//! renders an argument into a log line.

use vstd::prelude::*;
use vstd::slice::{slice_subrange, slice_to_vec};

verus! {

/// A parsed request.
pub enum Request {
    Version,
    Stop,
    /// `execute` with its raw hexadecimal argument.
    Execute(Vec<u8>),
    /// `execute_asm` with its raw mnemonic text.
    ExecuteAsm(Vec<u8>),
    Invalid,
}

/// The mathematical shape of a request: arguments as byte sequences.
pub enum RequestView {
    Version,
    Stop,
    Execute(Seq<u8>),
    ExecuteAsm(Seq<u8>),
    Invalid,
}

impl View for Request {
    type V = RequestView;

    open spec fn view(&self) -> RequestView {
        match self {
            Request::Version => RequestView::Version,
            Request::Stop => RequestView::Stop,
            Request::Execute(a) => RequestView::Execute(a@),
            Request::ExecuteAsm(a) => RequestView::ExecuteAsm(a@),
            Request::Invalid => RequestView::Invalid,
        }
    }
}

/// The ASCII whitespace bytes, the only ones trimming removes.
pub open spec fn is_ws(b: u8) -> bool {
    b == 0x20 || b == 0x09 || b == 0x0a || b == 0x0b || b == 0x0c || b == 0x0d
}

/// `s` without its leading whitespace.
pub open spec fn trim_front(s: Seq<u8>) -> Seq<u8>
    decreases s.len(),
{
    if s.len() > 0 && is_ws(s[0]) {
        trim_front(s.drop_first())
    } else {
        s
    }
}

/// `s` without its trailing whitespace.
pub open spec fn trim_back(s: Seq<u8>) -> Seq<u8>
    decreases s.len(),
{
    if s.len() > 0 && is_ws(s.last()) {
        trim_back(s.drop_last())
    } else {
        s
    }
}

/// `s` without surrounding whitespace.
pub open spec fn trimmed(s: Seq<u8>) -> Seq<u8> {
    trim_back(trim_front(s))
}

proof fn lemma_trim_front_skip(s: Seq<u8>, lo: int)
    requires
        0 <= lo <= s.len(),
        forall|j: int| 0 <= j < lo ==> is_ws(s[j]),
        lo == s.len() || !is_ws(s[lo]),
    ensures
        trim_front(s) == s.skip(lo),
    decreases lo,
{
    if lo == 0 {
        assert(s.skip(0) =~= s);
    } else {
        let t = s.drop_first();
        lemma_trim_front_skip(t, lo - 1);
        assert(t.skip(lo - 1) =~= s.skip(lo));
    }
}

proof fn lemma_trim_back_take(s: Seq<u8>, hi: int)
    requires
        0 <= hi <= s.len(),
        forall|j: int| hi <= j < s.len() ==> is_ws(s[j]),
        hi == 0 || !is_ws(s[hi - 1]),
    ensures
        trim_back(s) == s.take(hi),
    decreases s.len(),
{
    if hi == s.len() {
        assert(s.take(hi) =~= s);
    } else {
        let t = s.drop_last();
        lemma_trim_back_take(t, hi);
        assert(t.take(hi) =~= s.take(hi));
    }
}

fn is_ws_byte(b: u8) -> (r: bool)
    ensures
        r == is_ws(b),
{
    b == 0x20 || b == 0x09 || b == 0x0a || b == 0x0b || b == 0x0c || b == 0x0d
}

/// Copy of `s` with surrounding whitespace removed.
pub fn trim(s: &[u8]) -> (t: Vec<u8>)
    ensures
        t@ == trimmed(s@),
{
    let mut lo: usize = 0;
    while lo < s.len() && is_ws_byte(s[lo])
        invariant
            lo <= s@.len(),
            forall|j: int| 0 <= j < lo ==> is_ws(s@[j]),
        decreases s@.len() - lo,
    {
        lo = lo + 1;
    }
    let mut hi: usize = s.len();
    while hi > lo && is_ws_byte(s[hi - 1])
        invariant
            lo <= hi <= s@.len(),
            forall|j: int| hi <= j < s@.len() ==> is_ws(s@[j]),
        decreases hi,
    {
        hi = hi - 1;
    }
    proof {
        lemma_trim_front_skip(s@, lo as int);
        let f = s@.skip(lo as int);
        lemma_trim_back_take(f, hi - lo);
        assert(f.take(hi - lo) =~= s@.subrange(lo as int, hi as int));
    }
    let part = slice_subrange(s, lo, hi);
    slice_to_vec(part)
}

/// The index of the first space in `s`, if any.
pub open spec fn find_space(s: Seq<u8>) -> Option<int>
    decreases s.len(),
{
    if s.len() == 0 {
        None
    } else if s[0] == 0x20 {
        Some(0int)
    } else {
        match find_space(s.drop_first()) {
            Some(i) => Some(i + 1),
            None => None,
        }
    }
}

proof fn lemma_find_space_at(s: Seq<u8>, i: int)
    requires
        0 <= i <= s.len(),
        forall|j: int| 0 <= j < i ==> s[j] != 0x20,
        i == s.len() || s[i] == 0x20,
    ensures
        find_space(s) == (if i == s.len() {
            None
        } else {
            Some(i)
        }),
    decreases i,
{
    if i == 0 {
    } else {
        let t = s.drop_first();
        lemma_find_space_at(t, i - 1);
    }
}

fn find_space_exec(s: &[u8]) -> (r: Option<usize>)
    ensures
        (match (r, find_space(s@)) {
            (Some(i), Some(j)) => i == j && i < s@.len(),
            (None, None) => true,
            _ => false,
        }),
{
    let mut i: usize = 0;
    while i < s.len() && s[i] != 0x20
        invariant
            i <= s@.len(),
            forall|j: int| 0 <= j < i ==> s@[j] != 0x20,
        decreases s@.len() - i,
    {
        i = i + 1;
    }
    proof {
        lemma_find_space_at(s@, i as int);
    }
    if i < s.len() {
        Some(i)
    } else {
        None
    }
}

/// The bytes of the token `version`.
pub open spec fn version_bytes() -> Seq<u8> {
    seq![118u8, 101u8, 114u8, 115u8, 105u8, 111u8, 110u8]
}

/// The bytes of the token `stop`.
pub open spec fn stop_bytes() -> Seq<u8> {
    seq![115u8, 116u8, 111u8, 112u8]
}

/// The bytes of the token `execute`.
pub open spec fn execute_bytes() -> Seq<u8> {
    seq![101u8, 120u8, 101u8, 99u8, 117u8, 116u8, 101u8]
}

/// The bytes of the token `execute_asm`.
pub open spec fn execute_asm_bytes() -> Seq<u8> {
    seq![101u8, 120u8, 101u8, 99u8, 117u8, 116u8, 101u8, 95u8, 97u8, 115u8, 109u8]
}

fn token_is_version(t: &[u8]) -> (r: bool)
    ensures
        r == (t@ == version_bytes()),
{
    let r = t.len() == 7 && t[0] == 118 && t[1] == 101 && t[2] == 114 && t[3] == 115
        && t[4] == 105 && t[5] == 111 && t[6] == 110;
    proof {
        if r {
            assert(t@ =~= version_bytes());
        }
    }
    r
}

fn token_is_stop(t: &[u8]) -> (r: bool)
    ensures
        r == (t@ == stop_bytes()),
{
    let r = t.len() == 4 && t[0] == 115 && t[1] == 116 && t[2] == 111 && t[3] == 112;
    proof {
        if r {
            assert(t@ =~= stop_bytes());
        }
    }
    r
}

fn token_is_execute(t: &[u8]) -> (r: bool)
    ensures
        r == (t@ == execute_bytes()),
{
    let r = t.len() == 7 && t[0] == 101 && t[1] == 120 && t[2] == 101 && t[3] == 99
        && t[4] == 117 && t[5] == 116 && t[6] == 101;
    proof {
        if r {
            assert(t@ =~= execute_bytes());
        }
    }
    r
}

fn token_is_execute_asm(t: &[u8]) -> (r: bool)
    ensures
        r == (t@ == execute_asm_bytes()),
{
    let r = t.len() == 11 && t[0] == 101 && t[1] == 120 && t[2] == 101 && t[3] == 99
        && t[4] == 117 && t[5] == 116 && t[6] == 101 && t[7] == 95 && t[8] == 97
        && t[9] == 115 && t[10] == 109;
    proof {
        if r {
            assert(t@ =~= execute_asm_bytes());
        }
    }
    r
}

/// What parsing a raw message yields: the trimmed line is split at its
/// first space into a token and an argument, and the token decides the
/// request.
pub open spec fn parse_request_spec(msg: Seq<u8>) -> RequestView {
    let t = trimmed(msg);
    match find_space(t) {
        None => if t == version_bytes() {
            RequestView::Version
        } else if t == stop_bytes() {
            RequestView::Stop
        } else {
            RequestView::Invalid
        },
        Some(i) => {
            let tok = t.take(i);
            let arg = t.skip(i + 1);
            if tok == execute_bytes() {
                RequestView::Execute(arg)
            } else if tok == execute_asm_bytes() {
                RequestView::ExecuteAsm(arg)
            } else {
                RequestView::Invalid
            }
        },
    }
}

/// Parse one raw message into a request.
pub fn parse_request(msg: &[u8]) -> (req: Request)
    ensures
        req@ == parse_request_spec(msg@),
{
    let line = trim(msg);
    let t = line.as_slice();
    match find_space_exec(t) {
        None => {
            if token_is_version(t) {
                Request::Version
            } else if token_is_stop(t) {
                Request::Stop
            } else {
                Request::Invalid
            }
        },
        Some(i) => {
            let n = t.len();
            let tok = slice_subrange(t, 0, i);
            let arg = slice_subrange(t, i + 1, n);
            proof {
                assert(tok@ =~= trimmed(msg@).take(i as int));
                assert(arg@ =~= trimmed(msg@).skip(i + 1));
            }
            if token_is_execute(tok) {
                Request::Execute(slice_to_vec(arg))
            } else if token_is_execute_asm(tok) {
                Request::ExecuteAsm(slice_to_vec(arg))
            } else {
                Request::Invalid
            }
        },
    }
}

/// A hexadecimal digit.
pub open spec fn is_hex_digit(b: u8) -> bool {
    (0x30 <= b && b <= 0x39) || (0x41 <= b && b <= 0x46) || (0x61 <= b && b <= 0x66)
}

/// The value of a hexadecimal digit.
pub open spec fn hex_digit_value(b: u8) -> int {
    if 0x30 <= b && b <= 0x39 {
        b - 0x30
    } else if 0x41 <= b && b <= 0x46 {
        b - 0x41 + 10
    } else {
        b - 0x61 + 10
    }
}

/// Whether every byte of `s` is a hexadecimal digit.
pub open spec fn all_hex(s: Seq<u8>) -> bool {
    forall|i: int| 0 <= i < s.len() ==> is_hex_digit(s[i])
}

/// The value of a string of hexadecimal digits, most significant first.
pub open spec fn hex_value(s: Seq<u8>) -> int
    decreases s.len(),
{
    if s.len() == 0 {
        0
    } else {
        hex_value(s.drop_last()) * 16 + hex_digit_value(s.last())
    }
}

/// What parsing a hexadecimal argument as an unsigned 32-bit opcode
/// yields: the digits' value, or nothing when the argument is empty,
/// holds a non-digit, or overflows 32 bits.
pub open spec fn parse_hex_spec(s: Seq<u8>) -> Option<u32> {
    if s.len() > 0 && all_hex(s) && hex_value(s) <= u32::MAX {
        Some(hex_value(s) as u32)
    } else {
        None
    }
}

proof fn lemma_hex_nonneg(s: Seq<u8>)
    requires
        all_hex(s),
    ensures
        hex_value(s) >= 0,
    decreases s.len(),
{
    if s.len() > 0 {
        let t = s.drop_last();
        assert(all_hex(t));
        lemma_hex_nonneg(t);
    }
}

proof fn lemma_hex_mono(s: Seq<u8>, i: int)
    requires
        all_hex(s),
        0 <= i <= s.len(),
    ensures
        hex_value(s.take(i)) <= hex_value(s),
    decreases s.len(),
{
    if i == s.len() {
        assert(s.take(i) =~= s);
    } else {
        let t = s.drop_last();
        assert(all_hex(t));
        assert(t.take(i) =~= s.take(i));
        lemma_hex_mono(t, i);
        lemma_hex_nonneg(t);
    }
}

/// Parse a hexadecimal argument as an unsigned 32-bit opcode.
pub fn parse_hex(s: &[u8]) -> (r: Option<u32>)
    ensures
        r == parse_hex_spec(s@),
{
    if s.len() == 0 {
        return None;
    }
    let mut acc: u64 = 0;
    let mut i: usize = 0;
    while i < s.len()
        invariant
            0 < s@.len() <= usize::MAX,
            i <= s@.len(),
            forall|j: int| 0 <= j < i ==> is_hex_digit(s@[j]),
            acc as int == hex_value(s@.take(i as int)),
            acc <= u32::MAX,
        decreases s@.len() - i,
    {
        let b = s[i];
        let d: u8 = if 0x30 <= b && b <= 0x39 {
            b - 0x30
        } else if 0x41 <= b && b <= 0x46 {
            b - 0x41 + 10
        } else if 0x61 <= b && b <= 0x66 {
            b - 0x61 + 10
        } else {
            proof {
                assert(!is_hex_digit(s@[i as int]));
            }
            return None;
        };
        acc = acc * 16 + (d as u64);
        proof {
            assert(s@.take(i + 1).drop_last() =~= s@.take(i as int));
            assert(s@.take(i + 1).last() == s@[i as int]);
        }
        if acc > 0xffff_ffff {
            proof {
                if all_hex(s@) {
                    lemma_hex_mono(s@, i + 1);
                }
            }
            return None;
        }
        i = i + 1;
    }
    proof {
        assert(s@.take(s@.len() as int) =~= s@);
    }
    Some(acc as u32)
}

} // verus!
