use vstd::prelude::*;
use vstd::utf8::{decode_utf8, valid_utf8};

use vstd::string::*;

use crate::text::{binary_text, string_of, two_to};

verus! {

/// The number of words of instruction memory.
pub const ROM_SIZE: usize = 32768;

/// Whether `c` has the Unicode `White_Space` property, the set that `char::is_whitespace`
/// and `str::trim` go by.
pub open spec fn is_whitespace(c: char) -> bool {
    let u = c as u32;
    ||| 0x9 <= u <= 0xd
    ||| u == 0x20
    ||| u == 0x85
    ||| u == 0xa0
    ||| u == 0x1680
    ||| 0x2000 <= u <= 0x200a
    ||| u == 0x2028
    ||| u == 0x2029
    ||| u == 0x202f
    ||| u == 0x205f
    ||| u == 0x3000
}

/// `s` without its leading whitespace.
pub open spec fn trim_start(s: Seq<char>) -> Seq<char>
    decreases s.len(),
{
    if s.len() > 0 && is_whitespace(s[0]) {
        trim_start(s.drop_first())
    } else {
        s
    }
}

/// `s` without its trailing whitespace.
pub open spec fn trim_end(s: Seq<char>) -> Seq<char>
    decreases s.len(),
{
    if s.len() > 0 && is_whitespace(s.last()) {
        trim_end(s.drop_last())
    } else {
        s
    }
}

/// `s` without its leading and trailing whitespace.
pub open spec fn trim(s: Seq<char>) -> Seq<char> {
    trim_end(trim_start(s))
}

/// Whether a trimmed line is a comment: it starts with `//`.
pub open spec fn is_comment(t: Seq<char>) -> bool {
    t.len() >= 2 && t[0] == '/' && t[1] == '/'
}

/// Whether every character of `s` is a binary digit.
pub open spec fn all_binary_digits(s: Seq<char>) -> bool {
    forall|i: int| 0 <= i < s.len() ==> (s[i] == '0' || s[i] == '1')
}

/// The number that the binary digits `s` write, most significant first.
pub open spec fn binary_value(s: Seq<char>) -> nat
    decreases s.len(),
{
    if s.len() == 0 {
        0
    } else {
        2 * binary_value(s.drop_last()) + (if s.last() == '1' { 1nat } else { 0nat })
    }
}

/// The 16-bit word that `t` writes in binary: an optional `+`, then one or more binary
/// digits whose value fits in 16 bits (what `u16::from_str_radix(t, 2)` accepts).
pub open spec fn parse_binary_word(t: Seq<char>) -> Option<u16> {
    let digits = if t.len() > 0 && t[0] == '+' { t.drop_first() } else { t };
    if digits.len() > 0 && all_binary_digits(digits) && binary_value(digits) <= 0xffff {
        Some(binary_value(digits) as u16)
    } else {
        None
    }
}

/// The end of the line that starts at `start`: the first newline at or after `start`,
/// or the end of the bytes.
pub open spec fn line_end(bytes: Seq<u8>, start: int) -> int
    decreases bytes.len() - start,
{
    if start < 0 || start >= bytes.len() {
        bytes.len() as int
    } else if bytes[start] == 10 {
        start
    } else {
        line_end(bytes, start + 1)
    }
}

/// A line ends at or after its start and within the bytes.
pub proof fn lemma_line_end(bytes: Seq<u8>, start: int)
    requires
        0 <= start <= bytes.len(),
    ensures
        start <= line_end(bytes, start) <= bytes.len(),
    decreases bytes.len() - start,
{
    if start < bytes.len() && bytes[start] != 10 {
        lemma_line_end(bytes, start + 1);
    }
}

/// Why a program text does not load, as a value of the specification.
pub enum LoadFault {
    InvalidUtf8,
    RomSizeExceeded,
    InvalidCode { code: Seq<char> },
}

/// Loading the program text `bytes` from byte `pos` on, with the next instruction going
/// to ROM address `addr`: the ROM contents afterwards and the outcome.
///
/// The text is read line by line, lines ending at a newline. A line that is not valid
/// UTF-8 stops the load. Each line is trimmed of whitespace; a line that is then empty
/// or starts with `//` is skipped. Every other line is the next instruction: when the ROM
/// is already full the load stops, and a line that is not a 16-bit binary word stops it
/// too; else the word is stored at the next address. What was stored before a stop stays.
pub open spec fn load_lines(mem: Seq<u16>, bytes: Seq<u8>, pos: int, addr: int) -> (Seq<u16>, Result<(), LoadFault>)
    decreases bytes.len() + 1 - pos,
{
    if pos < 0 || pos >= bytes.len() {
        (mem, Ok(()))
    } else {
        let end = line_end(bytes, pos);
        let line = bytes.subrange(pos, end);
        if !valid_utf8(line) {
            (mem, Err(LoadFault::InvalidUtf8))
        } else {
            let t = trim(decode_utf8(line));
            if t.len() == 0 || is_comment(t) {
                proof {
                    lemma_line_end(bytes, pos);
                }
                load_lines(mem, bytes, end + 1, addr)
            } else if addr >= ROM_SIZE {
                (mem, Err(LoadFault::RomSizeExceeded))
            } else {
                match parse_binary_word(t) {
                    Some(w) => {
                        proof {
                            lemma_line_end(bytes, pos);
                        }
                        load_lines(mem.update(addr, w), bytes, end + 1, addr + 1)
                    },
                    None => (mem, Err(LoadFault::InvalidCode { code: t })),
                }
            }
        }
    }
}

/// The instruction words of the program text `bytes` from byte `pos` on, in order, as far
/// as the text reads as instructions (up to the first line that does not).
pub open spec fn program_words(bytes: Seq<u8>, pos: int) -> Seq<u16>
    decreases bytes.len() + 1 - pos,
{
    if pos < 0 || pos >= bytes.len() {
        Seq::empty()
    } else {
        let end = line_end(bytes, pos);
        let line = bytes.subrange(pos, end);
        if !valid_utf8(line) {
            Seq::empty()
        } else {
            let t = trim(decode_utf8(line));
            proof {
                lemma_line_end(bytes, pos);
            }
            if t.len() == 0 || is_comment(t) {
                program_words(bytes, end + 1)
            } else {
                match parse_binary_word(t) {
                    Some(w) => seq![w] + program_words(bytes, end + 1),
                    None => Seq::empty(),
                }
            }
        }
    }
}

/// A program that loads stores its instruction words in order from the first free
/// address on, all within the ROM, and leaves every other word of the ROM as it was.
pub proof fn lemma_load_stores_program_words(mem: Seq<u16>, bytes: Seq<u8>, pos: int, addr: int)
    requires
        mem.len() == ROM_SIZE,
        0 <= pos,
        0 <= addr,
        load_lines(mem, bytes, pos, addr).1 is Ok,
    ensures
        addr + program_words(bytes, pos).len() <= ROM_SIZE || program_words(bytes, pos).len() == 0,
        load_lines(mem, bytes, pos, addr).0.len() == ROM_SIZE,
        forall|i: int|
            0 <= i < ROM_SIZE ==> #[trigger] load_lines(mem, bytes, pos, addr).0[i] == if addr <= i
                < addr + program_words(bytes, pos).len() {
                program_words(bytes, pos)[i - addr]
            } else {
                mem[i]
            },
    decreases bytes.len() + 1 - pos,
{
    if pos < bytes.len() {
        let end = line_end(bytes, pos);
        lemma_line_end(bytes, pos);
        let line = bytes.subrange(pos, end);
        let t = trim(decode_utf8(line));
        if t.len() == 0 || is_comment(t) {
            lemma_load_stores_program_words(mem, bytes, end + 1, addr);
        } else {
            let w = parse_binary_word(t).unwrap();
            let mem2 = mem.update(addr, w);
            lemma_load_stores_program_words(mem2, bytes, end + 1, addr + 1);
            let rest = program_words(bytes, end + 1);
            assert(program_words(bytes, pos) == seq![w] + rest);
            assert forall|i: int| 0 <= i < ROM_SIZE implies #[trigger] load_lines(
                mem,
                bytes,
                pos,
                addr,
            ).0[i] == if addr <= i < addr + program_words(bytes, pos).len() {
                program_words(bytes, pos)[i - addr]
            } else {
                mem[i]
            } by {
                assert(load_lines(mem, bytes, pos, addr).0 == load_lines(mem2, bytes, end + 1, addr + 1).0);
                if i == addr {
                } else if addr < i < addr + 1 + rest.len() {
                    assert((seq![w] + rest)[i - addr] == rest[i - addr - 1]);
                }
            }
        }
    }
}

/// Trimming a sequence with one whitespace character appended: it trims like the sequence.
proof fn lemma_trim_start_push(s: Seq<char>, c: char)
    requires
        is_whitespace(c),
    ensures
        trim_start(s.push(c)) == (if trim_start(s).len() == 0 {
            Seq::<char>::empty()
        } else {
            trim_start(s).push(c)
        }),
    decreases s.len(),
{
    if s.len() == 0 {
        assert(s.push(c).drop_first() =~= Seq::<char>::empty());
        assert(trim_start(Seq::<char>::empty()) == Seq::<char>::empty());
    } else if is_whitespace(s[0]) {
        assert(s.push(c).drop_first() =~= s.drop_first().push(c));
        lemma_trim_start_push(s.drop_first(), c);
    } else {
        assert(s.push(c)[0] == s[0]);
    }
}

/// Trimming removes every Unicode `White_Space` character at either end, tab, line feed,
/// vertical tab, form feed, carriage return and space included, and leaves the digits, the
/// sign and the comment slash that program lines are made of.
pub proof fn lemma_trim_white_space(s: Seq<char>, c: char, k: char)
    requires
        c == '\t' || c == '\n' || c == '\u{b}' || c == '\u{c}' || c == '\r' || c == ' '
            || c == '\u{85}' || c == '\u{a0}' || c == '\u{1680}' || c == '\u{2000}'
            || c == '\u{2001}' || c == '\u{2002}' || c == '\u{2003}' || c == '\u{2004}'
            || c == '\u{2005}' || c == '\u{2006}' || c == '\u{2007}' || c == '\u{2008}'
            || c == '\u{2009}' || c == '\u{200a}' || c == '\u{2028}' || c == '\u{2029}'
            || c == '\u{202f}' || c == '\u{205f}' || c == '\u{3000}',
        k == '0' || k == '1' || k == '+' || k == '/',
    ensures
        trim(seq![c] + s) == trim(s),
        trim(s.push(c)) == trim(s),
        trim(seq![k]) == seq![k],
{
    assert((seq![c] + s).drop_first() =~= s);
    lemma_trim_start_push(s, c);
    if trim_start(s).len() != 0 {
        assert(trim_start(s).push(c).drop_last() =~= trim_start(s));
    }
}

/// The lowest `n` binary digits of a number below `2^n` are `n` binary digits that write it.
pub proof fn lemma_binary_text(v: nat, n: nat)
    requires
        v < two_to(n),
    ensures
        binary_text(v, n).len() == n,
        all_binary_digits(binary_text(v, n)),
        binary_value(binary_text(v, n)) == v,
    decreases n,
{
    if n > 0 {
        lemma_binary_text(v / 2, (n - 1) as nat);
        assert(binary_text(v, n).drop_last() =~= binary_text(v / 2, (n - 1) as nat));
    }
}

/// Reading a word back: the sixteen binary digits of every word, with or without a
/// leading `+`, read as that word.
pub proof fn lemma_binary_word_round_trip(w: u16)
    ensures
        parse_binary_word(binary_text(w as nat, 16)) == Some(w),
        parse_binary_word(seq!['+'] + binary_text(w as nat, 16)) == Some(w),
{
    reveal_with_fuel(two_to, 17);
    lemma_binary_text(w as nat, 16);
    let t = binary_text(w as nat, 16);
    assert(t[0] != '+');
    assert((seq!['+'] + t).drop_first() =~= t);
}

/// Line ends do not depend on where the text is cut: past a cut at `pos`, lines end at
/// the same places.
proof fn lemma_line_end_shift(b: Seq<u8>, pos: int, j: int)
    requires
        0 <= pos <= b.len(),
        0 <= j,
    ensures
        line_end(b, pos + j) == pos + line_end(b.skip(pos), j),
    decreases b.len() - pos - j,
{
    if pos + j < b.len() {
        assert(b.skip(pos)[j] == b[pos + j]);
        if b[pos + j] != 10 {
            lemma_line_end_shift(b, pos, j + 1);
        }
    }
}

/// Loading from byte `pos + j` of a text is loading from byte `j` of the text cut at `pos`.
proof fn lemma_load_shift(mem: Seq<u16>, b: Seq<u8>, pos: int, j: int, addr: int)
    requires
        0 <= pos <= b.len(),
        0 <= j,
    ensures
        load_lines(mem, b, pos + j, addr) == load_lines(mem, b.skip(pos), j, addr),
    decreases b.len() + 1 - pos - j,
{
    if pos + j < b.len() {
        let c = b.skip(pos);
        lemma_line_end_shift(b, pos, j);
        lemma_line_end(b, pos + j);
        lemma_line_end(c, j);
        let end = line_end(b, pos + j);
        let end2 = line_end(c, j);
        assert(b.subrange(pos + j, end) =~= c.subrange(j, end2));
        let t = trim(decode_utf8(b.subrange(pos + j, end)));
        assert(end + 1 == pos + (end2 + 1));
        if t.len() == 0 || is_comment(t) {
            lemma_load_shift(mem, b, pos, end2 + 1, addr);
        } else if addr < ROM_SIZE {
            match parse_binary_word(t) {
                Some(w) => {
                    lemma_load_shift(mem.update(addr, w), b, pos, end2 + 1, addr + 1);
                },
                None => {},
            }
        }
    }
}

/// The first line of `line + "\n" + rest` ends at the newline.
proof fn lemma_first_line_end(line: Seq<u8>, rest: Seq<u8>, j: int)
    requires
        0 <= j <= line.len(),
        forall|i: int| 0 <= i < line.len() ==> line[i] != 10,
    ensures
        line_end(line + seq![10u8] + rest, j) == line.len(),
    decreases line.len() - j,
{
    let b = line + seq![10u8] + rest;
    if j < line.len() {
        assert(b[j] == line[j]);
        lemma_first_line_end(line, rest, j + 1);
    } else {
        assert(b[j] == 10);
    }
}

/// Loading a text line by line: a first line that is blank or a `//` comment adds
/// nothing, a first line that is a binary word stores that word at the next address (the
/// ROM having room) and the rest loads after it, and a first line that is not UTF-8 stops
/// the load with the ROM unchanged.
pub proof fn lemma_load_first_line(mem: Seq<u16>, line: Seq<u8>, rest: Seq<u8>, addr: int)
    requires
        0 <= addr,
        forall|i: int| 0 <= i < line.len() ==> line[i] != 10,
    ensures
        !valid_utf8(line) ==> load_lines(mem, line + seq![10u8] + rest, 0, addr) == (
            mem,
            Err::<(), LoadFault>(LoadFault::InvalidUtf8),
        ),
        valid_utf8(line) && ({
            let t = trim(decode_utf8(line));
            t.len() == 0 || (t.len() >= 2 && t[0] == '/' && t[1] == '/')
        }) ==> load_lines(mem, line + seq![10u8] + rest, 0, addr) == load_lines(mem, rest, 0, addr),
        forall|w: u16|
            valid_utf8(line) && addr < ROM_SIZE && #[trigger] parse_binary_word(
                trim(decode_utf8(line)),
            ) == Some(w) ==> load_lines(mem, line + seq![10u8] + rest, 0, addr) == load_lines(
                mem.update(addr, w),
                rest,
                0,
                addr + 1,
            ),
{
    let b = line + seq![10u8] + rest;
    lemma_first_line_end(line, rest, 0);
    assert(b.subrange(0, line.len() as int) =~= line);
    assert(b.skip((line.len() + 1) as int) =~= rest);
    let t = trim(decode_utf8(line));
    if valid_utf8(line) && (t.len() == 0 || is_comment(t)) {
        lemma_load_shift(mem, b, (line.len() + 1) as int, 0, addr);
    }
    assert forall|w: u16|
        valid_utf8(line) && addr < ROM_SIZE && #[trigger] parse_binary_word(
            trim(decode_utf8(line)),
        ) == Some(w) implies load_lines(mem, b, 0, addr) == load_lines(
        mem.update(addr, w),
        rest,
        0,
        addr + 1,
    ) by {
        lemma_load_shift(mem.update(addr, w), b, (line.len() + 1) as int, 0, addr + 1);
        if t.len() == 0 || is_comment(t) {
            assert(t.len() > 0);
        }
    }
}

/// A prefix of binary digits writes no more than the whole.
proof fn lemma_binary_value_prefix(s: Seq<char>, n: int)
    requires
        0 <= n <= s.len(),
    ensures
        binary_value(s.take(n)) <= binary_value(s),
    decreases s.len(),
{
    if n < s.len() {
        assert(s.drop_last().take(n) =~= s.take(n));
        lemma_binary_value_prefix(s.drop_last(), n);
    } else {
        assert(s.take(n) =~= s);
    }
}

/// Whether the exec character `c` is whitespace.
fn is_whitespace_char(c: char) -> (res: bool)
    ensures
        res == is_whitespace(c),
{
    let u = c as u32;
    (0x9 <= u && u <= 0xd) || u == 0x20 || u == 0x85 || u == 0xa0 || u == 0x1680 || (0x2000 <= u
        && u <= 0x200a) || u == 0x2028 || u == 0x2029 || u == 0x202f || u == 0x205f || u == 0x3000
}

/// The characters of `v` without leading and trailing whitespace.
fn trim_chars(v: &Vec<char>) -> (res: Vec<char>)
    ensures
        res@ == trim(v@),
{
    let n = v.len();
    let mut lo: usize = 0;
    assert(v@.subrange(0, n as int) =~= v@);
    while lo < n && is_whitespace_char(v[lo])
        invariant
            n == v@.len(),
            lo <= n,
            trim_start(v@) == trim_start(v@.subrange(lo as int, n as int)),
        decreases n - lo,
    {
        assert(v@.subrange(lo as int, n as int).drop_first() =~= v@.subrange(lo + 1, n as int));
        lo = lo + 1;
    }
    assert(trim_start(v@) == v@.subrange(lo as int, n as int));
    let mut hi: usize = n;
    while hi > lo && is_whitespace_char(v[hi - 1])
        invariant
            n == v@.len(),
            lo <= hi <= n,
            trim_end(v@.subrange(lo as int, n as int)) == trim_end(v@.subrange(lo as int, hi as int)),
        decreases hi,
    {
        assert(v@.subrange(lo as int, hi as int).drop_last() =~= v@.subrange(lo as int, hi - 1));
        hi = hi - 1;
    }
    let mut res: Vec<char> = Vec::new();
    let mut i: usize = lo;
    while i < hi
        invariant
            n == v@.len(),
            lo <= i <= hi <= n,
            res@ == v@.subrange(lo as int, i as int),
        decreases hi - i,
    {
        res.push(v[i]);
        assert(res@ =~= v@.subrange(lo as int, i + 1));
        i = i + 1;
    }
    res
}

/// Reads a binary word as `u16::from_str_radix(.., 2)` does.
fn parse_binary(t: &Vec<char>) -> (res: Option<u16>)
    ensures
        res == parse_binary_word(t@),
{
    let n = t.len();
    let start: usize = if n > 0 && t[0] == '+' {
        1
    } else {
        0
    };
    let ghost digits = if t@.len() > 0 && t@[0] == '+' { t@.drop_first() } else { t@ };
    assert(digits =~= t@.subrange(start as int, n as int));
    if start >= n {
        return None;
    }
    let mut acc: u32 = 0;
    let mut i: usize = start;
    while i < n
        invariant
            n == t@.len(),
            start <= i <= n,
            digits =~= t@.subrange(start as int, n as int),
            digits == (if t@.len() > 0 && t@[0] == '+' { t@.drop_first() } else { t@ }),
            all_binary_digits(digits.take(i - start)),
            acc == binary_value(digits.take(i - start)),
            acc <= 0xffff,
        decreases n - i,
    {
        let c = t[i];
        proof {
            assert(digits.take(i - start + 1).drop_last() =~= digits.take(i - start));
        }
        if c == '0' {
            acc = acc * 2;
        } else if c == '1' {
            acc = acc * 2 + 1;
        } else {
            assert(digits[i - start] == c);
            assert(!all_binary_digits(digits));
            return None;
        }
        if acc > 0xffff {
            proof {
                lemma_binary_value_prefix(digits, i - start + 1);
            }
            return None;
        }
        i = i + 1;
    }
    assert(digits.take(n - start) =~= digits);
    Some(acc as u16)
}

/// The end of the line that starts at `start`.
fn find_line_end(bytes: &[u8], start: usize) -> (end: usize)
    requires
        start <= bytes@.len(),
    ensures
        end == line_end(bytes@, start as int),
        start <= end <= bytes@.len(),
{
    let n = bytes.len();
    let mut i: usize = start;
    while i < n && bytes[i] != 10
        invariant
            n == bytes@.len(),
            start <= i <= n,
            line_end(bytes@, start as int) == line_end(bytes@, i as int),
        decreases n - i,
    {
        i = i + 1;
    }
    i
}

/// Decodes a line of bytes as UTF-8: a wrapper of `std::str::from_utf8`, which fails
/// exactly when the bytes are not valid UTF-8 and else gives the string that they encode.
#[verifier::external_body]
fn decode_line(bytes: &[u8]) -> (res: Option<&str>)
    ensures
        res is Some <==> valid_utf8(bytes@),
        res matches Some(s) ==> s@ == decode_utf8(bytes@),
{
    std::str::from_utf8(bytes).ok()
}

/// The characters of a string.
fn chars_of(s: &str) -> (res: Vec<char>)
    ensures
        res@ == s@,
{
    let mut v: Vec<char> = Vec::new();
    for c in it: s.chars()
        invariant
            v@ == it.seq().take(it.index() as int),
    {
        v.push(c);
    }
    assert(v@ =~= s@);
    v
}

/// Why a program text does not load.
#[derive(Debug)]
pub enum LoadError {
    /// A line is not valid UTF-8.
    InvalidUtf8,
    /// The program has more instructions than the ROM has words.
    RomSizeExceeded,
    /// A line, shown trimmed, is not a 16-bit binary word.
    InvalidCode { code: String },
}

impl View for LoadError {
    type V = LoadFault;

    open spec fn view(&self) -> LoadFault {
        match self {
            LoadError::InvalidUtf8 => LoadFault::InvalidUtf8,
            LoadError::RomSizeExceeded => LoadFault::RomSizeExceeded,
            LoadError::InvalidCode { code } => LoadFault::InvalidCode { code: code@ },
        }
    }
}

/// The text of a load error.
pub open spec fn load_fault_text(f: LoadFault) -> Seq<char> {
    match f {
        LoadFault::InvalidUtf8 => "stream did not contain valid UTF-8"@,
        LoadFault::RomSizeExceeded => "ROM size exceeded"@,
        LoadFault::InvalidCode { code } => "invalid code: '"@ + code + "'"@,
    }
}

impl LoadError {
    /// The text of this error.
    pub fn message(&self) -> (res: String)
        ensures
            res@ == load_fault_text(self@),
    {
        match self {
            LoadError::InvalidUtf8 => String::from_str("stream did not contain valid UTF-8"),
            LoadError::RomSizeExceeded => String::from_str("ROM size exceeded"),
            LoadError::InvalidCode { code } => {
                let mut s = String::from_str("invalid code: '");
                s.append(code.as_str());
                s.append("'");
                s
            },
        }
    }
}

/// The instruction memory of the Hack computer: `ROM_SIZE` words, all zero at first.
pub struct Rom {
    mem: Vec<u16>,
}

impl View for Rom {
    type V = Seq<u16>;

    closed spec fn view(&self) -> Seq<u16> {
        self.mem@
    }
}

impl Rom {
    /// Well-formedness: the memory holds exactly `ROM_SIZE` words.
    pub open spec fn wf(&self) -> bool {
        self@.len() == ROM_SIZE
    }

    /// A memory of `ROM_SIZE` zero words.
    pub fn new() -> (res: Self)
        ensures
            res.wf(),
            res@ == Seq::new(ROM_SIZE as nat, |i: int| 0u16),
    {
        let mem = vec![0u16; ROM_SIZE];
        assert(mem@ =~= Seq::new(ROM_SIZE as nat, |i: int| 0u16));
        Self { mem }
    }

    /// Loads a program written one binary instruction word per line (see `load_lines`),
    /// from address 0 on.
    pub fn load_program(&mut self, reader: &[u8]) -> (res: Result<(), LoadError>)
        requires
            old(self).wf(),
        ensures
            final(self).wf(),
            final(self)@ == load_lines(old(self)@, reader@, 0, 0).0,
            match res {
                Ok(_) => load_lines(old(self)@, reader@, 0, 0).1 is Ok,
                Err(e) => load_lines(old(self)@, reader@, 0, 0).1 == Err::<(), LoadFault>(e@),
            },
    {
        let n = reader.len();
        let mut pos: usize = 0;
        let mut address: usize = 0;
        while pos < n
            invariant
                n == reader@.len(),
                pos <= n,
                address <= ROM_SIZE,
                self.wf(),
                load_lines(old(self)@, reader@, 0, 0) == load_lines(self@, reader@, pos as int, address as int),
            decreases n - pos,
        {
            let end = find_line_end(reader, pos);
            let next: usize = if end < n {
                end + 1
            } else {
                n
            };
            proof {
                lemma_line_end(reader@, pos as int);
            }
            let line = &reader[pos..end];
            let s = match decode_line(line) {
                Some(s) => s,
                None => {
                    return Err(LoadError::InvalidUtf8);
                },
            };
            let chars = chars_of(s);
            let t = trim_chars(&chars);
            let ghost m0 = self@;
            proof {
                assert(line@ == reader@.subrange(pos as int, end as int));
                assert(t@ == trim(decode_utf8(line@)));
                assert(load_lines(m0, reader@, end + 1, address as int) == load_lines(
                    m0,
                    reader@,
                    next as int,
                    address as int,
                ));
            }
            if t.len() == 0 || (t.len() >= 2 && t[0] == '/' && t[1] == '/') {
                assert(load_lines(m0, reader@, pos as int, address as int) == load_lines(
                    m0,
                    reader@,
                    next as int,
                    address as int,
                ));
                pos = next;
                continue;
            }
            if address >= ROM_SIZE {
                return Err(LoadError::RomSizeExceeded);
            }
            match parse_binary(&t) {
                Some(w) => {
                    self.mem.set(address, w);
                    assert(load_lines(self@, reader@, end + 1, address + 1) == load_lines(
                        self@,
                        reader@,
                        next as int,
                        address + 1,
                    ));
                    address = address + 1;
                },
                None => {
                    return Err(LoadError::InvalidCode { code: string_of(&t) });
                },
            }
            pos = next;
        }
        Ok(())
    }

    /// The instruction word at `pc`.
    pub fn fetch(&self, pc: u16) -> (res: u16)
        requires
            self.wf(),
            (pc as usize) < ROM_SIZE,
        ensures
            res == self@[pc as int],
    {
        self.mem[pc as usize]
    }
}

} // verus!
