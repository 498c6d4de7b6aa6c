use vstd::prelude::*;

verus! {

/// A key press, as the widgets see it.  The terminal backend translates
/// its own key events into this form before handing them to a widget.
#[derive(Debug, Clone, Copy, PartialEq, Eq)]
pub enum Key {
    Char(char),
    Ctrl(char),
    Alt(char),
    Esc,
    Backspace,
    Other,
}

/// Reset every style.
pub fn reset() -> (r: &'static str)
    ensures
        r@ == "\u{1b}[m"@,
{
    "\u{1b}[m"
}

pub fn color_green() -> (r: &'static str)
    ensures
        r@ == "\u{1b}[32m"@,
{
    "\u{1b}[32m"
}

pub fn color_red() -> (r: &'static str)
    ensures
        r@ == "\u{1b}[31m"@,
{
    "\u{1b}[31m"
}

/// The default foreground color.
pub fn normal_color() -> (r: &'static str)
    ensures
        r@ == "\u{1b}[39m"@,
{
    "\u{1b}[39m"
}

/// Swap foreground and background.
pub fn invert() -> (r: &'static str)
    ensures
        r@ == "\u{1b}[7m"@,
{
    "\u{1b}[7m"
}

/// The background the status line is drawn on.
pub fn status_bg() -> (r: &'static str)
    ensures
        r@ == "\u{1b}[44m"@,
{
    "\u{1b}[44m"
}

/// The color the header line is drawn in.
pub fn header_color() -> (r: &'static str)
    ensures
        r@ == "\u{1b}[37m"@,
{
    "\u{1b}[37m"
}

/// The character for one decimal digit.
pub open spec fn spec_digit(d: int) -> char {
    if d == 0 {
        '0'
    } else if d == 1 {
        '1'
    } else if d == 2 {
        '2'
    } else if d == 3 {
        '3'
    } else if d == 4 {
        '4'
    } else if d == 5 {
        '5'
    } else if d == 6 {
        '6'
    } else if d == 7 {
        '7'
    } else if d == 8 {
        '8'
    } else {
        '9'
    }
}

/// The decimal digits of a non-negative number.
pub open spec fn spec_decimal(n: int) -> Seq<char>
    decreases n,
{
    if n < 10 {
        seq![spec_digit(n)]
    } else {
        spec_decimal(n / 10).push(spec_digit(n % 10))
    }
}

fn digit_str(d: u64) -> (r: &'static str)
    requires
        d < 10,
    ensures
        r@ == seq![spec_digit(d as int)],
{
    let r: &'static str = match d {
        0 => "0",
        1 => "1",
        2 => "2",
        3 => "3",
        4 => "4",
        5 => "5",
        6 => "6",
        7 => "7",
        8 => "8",
        _ => "9",
    };
    proof {
        reveal_strlit("0");
        reveal_strlit("1");
        reveal_strlit("2");
        reveal_strlit("3");
        reveal_strlit("4");
        reveal_strlit("5");
        reveal_strlit("6");
        reveal_strlit("7");
        reveal_strlit("8");
        reveal_strlit("9");
        assert(r@ =~= seq![spec_digit(d as int)]);
    }
    r
}

/// Append a number's decimal digits.
pub fn push_decimal(s: &mut String, n: u64)
    ensures
        final(s)@ == old(s)@ + spec_decimal(n as int),
    decreases n,
{
    if n >= 10 {
        push_decimal(s, n / 10);
        let d = digit_str(n % 10);
        s.append(d);
        proof {
            assert(s@ =~= old(s)@ + spec_decimal(n as int));
        }
    } else {
        let d = digit_str(n);
        s.append(d);
        proof {
            assert(s@ =~= old(s)@ + spec_decimal(n as int));
        }
    }
}

/// A number's decimal digits as a string.
pub fn u64_to_string(n: u64) -> (r: String)
    ensures
        r@ == spec_decimal(n as int),
{
    let mut s = String::new();
    push_decimal(&mut s, n);
    proof {
        assert(s@ =~= spec_decimal(n as int));
    }
    s
}

/// A run of zero characters, for fixed-width padding.
pub open spec fn spec_zeros(n: int) -> Seq<char>
    decreases n,
{
    if n <= 0 {
        Seq::empty()
    } else {
        spec_zeros(n - 1).push('0')
    }
}

/// A non-negative number in the given width, zero-padded on the left
/// (wider numbers keep all their digits).
pub open spec fn spec_pad_decimal(n: int, width: int) -> Seq<char> {
    spec_zeros(width - spec_decimal(n).len()) + spec_decimal(n)
}

/// Append a number zero-padded to the width.
pub fn push_pad_decimal(s: &mut String, n: u64, width: usize)
    ensures
        final(s)@ == old(s)@ + spec_pad_decimal(n as int, width as int),
{
    let ghost initial = s@;
    let digits = u64_to_string(n);
    let dlen = digits.as_str().unicode_len();
    let mut pad: usize = 0;
    proof {
        assert(s@ == initial + spec_zeros(0));
    }
    if dlen < width {
        while pad < width - dlen
            invariant
                dlen == spec_decimal(n as int).len(),
                dlen < width,
                pad <= width - dlen,
                s@ == initial + spec_zeros(pad as int),
            decreases width - dlen - pad,
        {
            s.append("0");
            pad = pad + 1;
            proof {
                reveal_strlit("0");
                assert(s@ =~= initial + spec_zeros(pad as int));
            }
        }
    }
    s.append(digits.as_str());
    proof {
        assert(spec_zeros(width as int - spec_decimal(n as int).len()) =~= spec_zeros(pad as int));
        assert(s@ =~= initial + spec_pad_decimal(n as int, width as int));
    }
}

/// The escape sequence that moves the cursor to column `x`, row `y`
/// (one-based).
pub fn goto_xy(x: u16, y: u16) -> (r: String)
    ensures
        r@ == "\u{1b}["@ + spec_decimal(y as int) + ";"@ + spec_decimal(x as int) + "H"@,
{
    let mut s = String::from_str("\u{1b}[");
    push_decimal(&mut s, y as u64);
    s.append(";");
    push_decimal(&mut s, x as u64);
    s.append("H");
    proof {
        assert(s@ =~= "\u{1b}["@ + spec_decimal(y as int) + ";"@ + spec_decimal(x as int) + "H"@);
    }
    s
}

/// As `goto_xy`, for zero-based coordinates.
pub fn goto_xy_u(x: usize, y: usize) -> (r: String)
    requires
        x < 65535,
        y < 65535,
    ensures
        r@ == "\u{1b}["@ + spec_decimal(y + 1) + ";"@ + spec_decimal(x + 1) + "H"@,
{
    goto_xy((x + 1) as u16, (y + 1) as u16)
}

/// A run of spaces.
pub open spec fn spec_spaces(n: int) -> Seq<char>
    decreases n,
{
    if n <= 0 {
        Seq::empty()
    } else {
        spec_spaces(n - 1).push(' ')
    }
}

/// A string padded with spaces on the right to the width; a longer
/// string stays as it is.
pub fn pad_right(s: &str, width: usize) -> (r: String)
    ensures
        s@.len() >= width ==> r@ == s@,
        s@.len() < width ==> r@ == s@ + spec_spaces(width - s@.len()),
{
    let len = s.unicode_len();
    let mut out = s.to_owned();
    if len >= width {
        return out;
    }
    let mut pad: usize = 0;
    while pad < width - len
        invariant
            s@.len() == len < width,
            pad <= width - len,
            out@ == s@ + spec_spaces(pad as int),
        decreases width - len - pad,
    {
        out.append(" ");
        pad = pad + 1;
        proof {
            reveal_strlit(" ");
            assert(out@ =~= s@ + spec_spaces(pad as int));
        }
    }
    out
}

/// A string cut or padded to exactly the width.
pub fn sized_string_u(s: &str, width: usize) -> (r: String)
    ensures
        s@.len() >= width ==> r@ == s@.take(width as int),
        s@.len() < width ==> r@ == s@ + spec_spaces(width - s@.len()),
{
    let len = s.unicode_len();
    if len >= width {
        let cut = s.substring_char(0, width);
        return cut.to_owned();
    }
    pad_right(s, width)
}

/// The length of the first line: the index of the first newline, or the
/// whole length.
pub open spec fn spec_first_line_len(s: Seq<char>) -> int
    decreases s.len(),
{
    if s.len() == 0 {
        0
    } else if s[0] == '\n' {
        0
    } else {
        1 + spec_first_line_len(s.drop_first())
    }
}

pub fn first_line_len(s: &str) -> (r: usize)
    ensures
        r == spec_first_line_len(s@),
        r <= s@.len(),
{
    let len = s.unicode_len();
    let mut i: usize = 0;
    while i < len && s.get_char(i) != '\n'
        invariant
            0 <= i <= len,
            len == s@.len(),
            forall|k: int| 0 <= k < i ==> s@[k] != '\n',
        decreases len - i,
    {
        i = i + 1;
    }
    proof {
        lemma_first_line_len_unique(s@, i as int);
    }
    i
}

proof fn lemma_first_line_len_unique(s: Seq<char>, m: int)
    requires
        0 <= m <= s.len(),
        forall|k: int| 0 <= k < m ==> s[k] != '\n',
        m < s.len() ==> s[m] == '\n',
    ensures
        spec_first_line_len(s) == m,
    decreases s.len(),
{
    if s.len() == 0 {
    } else if s[0] == '\n' {
        assert(m == 0);
    } else {
        let t = s.drop_first();
        assert(forall|k: int| 0 <= k < m - 1 ==> t[k] == s[k + 1] && s[k + 1] != '\n');
        lemma_first_line_len_unique(t, m - 1);
    }
}

/// How many newline characters the text holds.
pub open spec fn spec_nl_count(s: Seq<char>) -> int
    decreases s.len(),
{
    if s.len() == 0 {
        0
    } else {
        (if s[0] == '\n' {
            1int
        } else {
            0int
        }) + spec_nl_count(s.drop_first())
    }
}

pub fn nl_count(s: &str) -> (r: usize)
    ensures
        r == spec_nl_count(s@),
{
    let len = s.unicode_len();
    let mut i: usize = 0;
    let mut count: usize = 0;
    while i < len
        invariant
            0 <= i <= len,
            len == s@.len(),
            count == spec_nl_count(s@.take(i as int)),
            count <= i,
        decreases len - i,
    {
        proof {
            assert(s@.take(i + 1) =~= s@.take(i as int).push(s@[i as int]));
            lemma_nl_count_push(s@.take(i as int), s@[i as int]);
        }
        if s.get_char(i) == '\n' {
            count = count + 1;
        }
        i = i + 1;
    }
    proof {
        assert(s@.take(len as int) =~= s@);
    }
    count
}

proof fn lemma_nl_count_push(s: Seq<char>, c: char)
    ensures
        spec_nl_count(s.push(c)) == spec_nl_count(s) + (if c == '\n' {
            1int
        } else {
            0int
        }),
    decreases s.len(),
{
    if s.len() == 0 {
        assert(s.push(c)[0] == c);
        assert(s.push(c).drop_first() =~= Seq::<char>::empty());
        assert(spec_nl_count(Seq::<char>::empty()) == 0);
        assert(spec_nl_count(s.push(c)) == (if c == '\n' {
            1int
        } else {
            0int
        }) + spec_nl_count(Seq::<char>::empty()));
    } else {
        assert(s.push(c)[0] == s[0]);
        assert(s.push(c).drop_first() =~= s.drop_first().push(c));
        lemma_nl_count_push(s.drop_first(), c);
        assert(spec_nl_count(s.push(c)) == (if s[0] == '\n' {
            1int
        } else {
            0int
        }) + spec_nl_count(s.drop_first().push(c)));
    }
}

/// Relies on std's `String::push`: appends exactly one character.
#[verifier::external_body]
pub fn push_char(s: &mut String, c: char)
    ensures
        final(s)@ == old(s)@.push(c),
{
    s.push(c);
}

} // verus!
