//! Coloured text and the number and padding formats that the views use.

use vstd::prelude::*;

verus! {

/// The foreground colour of a piece of text. `Plain` leaves the terminal's own.
#[derive(Clone, Copy, Debug, PartialEq, Eq, Structural)]
pub enum Color {
    Plain,
    Red,
    Green,
    Yellow,
    Cyan,
    White,
    DarkGray,
    LightGreen,
}

/// A piece of text in one colour.
#[derive(Clone, Debug)]
pub struct Span {
    pub text: String,
    pub color: Color,
}

impl View for Span {
    type V = (Seq<char>, Color);

    open spec fn view(&self) -> (Seq<char>, Color) {
        (self.text@, self.color)
    }
}

/// What a list of spans shows.
pub open spec fn shown(spans: Seq<Span>) -> Seq<(Seq<char>, Color)> {
    spans.map_values(|s: Span| s@)
}

/// Appends `text` in `color` to `spans`.
pub fn push_span(spans: &mut Vec<Span>, text: String, color: Color)
    ensures
        shown(final(spans)@) == shown(old(spans)@).push((text@, color)),
{
    spans.push(Span { text, color });
    assert(shown(spans@) =~= shown(old(spans)@).push((text@, color)));
}

/// Appends the literal `text` in `color` to `spans`.
pub fn push_str(spans: &mut Vec<Span>, text: &str, color: Color)
    ensures
        shown(final(spans)@) == shown(old(spans)@).push((text@, color)),
{
    push_span(spans, text.to_owned(), color);
}

/// `n` blanks.
pub open spec fn blanks(n: nat) -> Seq<char> {
    Seq::new(n, |i: int| ' ')
}

/// `s` moved to the right end of a field of `width` characters; a longer `s`
/// stays as it is.
pub open spec fn right_aligned(s: Seq<char>, width: nat) -> Seq<char> {
    if s.len() < width {
        blanks((width - s.len()) as nat) + s
    } else {
        s
    }
}

/// `s` at the left end of a field of `width` characters; a longer `s` stays as
/// it is.
pub open spec fn left_aligned(s: Seq<char>, width: nat) -> Seq<char> {
    if s.len() < width {
        s + blanks((width - s.len()) as nat)
    } else {
        s
    }
}

/// A text of `n` blanks.
pub fn blank_text(n: usize) -> (r: String)
    ensures
        r@ == blanks(n as nat),
{
    let mut r = String::new();
    let mut i: usize = 0;
    proof {
        assert(r@ =~= blanks(0));
    }
    while i < n
        invariant
            i <= n,
            r@ == blanks(i as nat),
        decreases n - i,
    {
        proof {
            reveal_strlit(" ");
        }
        r.append(" ");
        i = i + 1;
        assert(r@ =~= blanks(i as nat));
    }
    r
}

/// Pads `s` on the left up to `width` characters.
pub fn align_right(s: &str, width: usize) -> (r: String)
    ensures
        r@ == right_aligned(s@, width as nat),
{
    let len: usize = s.unicode_len();
    if len < width {
        let mut r = blank_text(width - len);
        r.append(s);
        r
    } else {
        s.to_owned()
    }
}

/// Pads `s` on the right up to `width` characters.
pub fn align_left(s: &str, width: usize) -> (r: String)
    ensures
        r@ == left_aligned(s@, width as nat),
{
    let mut r = s.to_owned();
    let len: usize = s.unicode_len();
    if len < width {
        let pad = blank_text(width - len);
        r.append(pad.as_str());
    }
    r
}

/// The character of the decimal digit `d`.
pub open spec fn digit(d: int) -> char {
    "0123456789"@[d]
}

/// The decimal digits of `n`, without leading zeros.
pub open spec fn decimal(n: nat) -> Seq<char>
    decreases n,
{
    if n < 10 {
        seq![digit(n as int)]
    } else {
        decimal(n / 10).push(digit((n % 10) as int))
    }
}

/// The decimal digits of `n`, after a minus sign where `n` is negative.
pub open spec fn signed_decimal(n: int) -> Seq<char> {
    if n < 0 {
        seq!['-'] + decimal((-n) as nat)
    } else {
        decimal(n as nat)
    }
}

/// The decimal digits of `n`, after its sign.
pub open spec fn explicit_decimal(n: int) -> Seq<char> {
    if n < 0 {
        seq!['-'] + decimal((-n) as nat)
    } else {
        seq!['+'] + decimal(n as nat)
    }
}

/// Writes `n` in decimal.
pub fn decimal_text(n: u64) -> (r: String)
    ensures
        r@ == decimal(n as nat),
    decreases n,
{
    let mut r = if n < 10 {
        String::new()
    } else {
        decimal_text(n / 10)
    };
    let d: usize = (n % 10) as usize;
    proof {
        reveal_strlit("0123456789");
    }
    r.append("0123456789".substring_char(d, d + 1));
    assert(r@ =~= decimal(n as nat));
    r
}

/// The numbers of a list in decimal, with commas between them.
pub open spec fn enumerated(list: Seq<u64>) -> Seq<char>
    decreases list.len(),
{
    if list.len() == 0 {
        Seq::empty()
    } else if list.len() == 1 {
        decimal(list[0] as nat)
    } else {
        enumerated(list.drop_last()) + ", "@ + decimal(list.last() as nat)
    }
}

/// A list of numbers in square brackets.
pub open spec fn bracketed(list: Seq<u64>) -> Seq<char> {
    "["@ + enumerated(list) + "]"@
}

/// Writes a list of numbers in square brackets.
pub fn list_text(list: &Vec<u64>) -> (r: String)
    ensures
        r@ == bracketed(list@),
{
    let mut r = "[".to_owned();
    let mut i: usize = 0;
    assert(r@ =~= "["@ + enumerated(list@.take(0)));
    while i < list.len()
        invariant
            i <= list@.len(),
            r@ == "["@ + enumerated(list@.take(i as int)),
        decreases list@.len() - i,
    {
        if i > 0 {
            r.append(", ");
        }
        r.append(decimal_text(list[i]).as_str());
        proof {
            let longer = list@.take(i + 1);
            assert(longer.drop_last() =~= list@.take(i as int));
            assert(longer.last() == list@[i as int]);
            if i == 0 {
                assert(enumerated(list@.take(0)) =~= Seq::empty());
            }
            assert(r@ =~= "["@ + enumerated(longer));
        }
        i = i + 1;
    }
    assert(list@.take(i as int) =~= list@);
    r.append("]");
    r
}

/// Writes `n` in decimal, with a sign only where it is negative.
pub fn signed_decimal_text(n: i64) -> (r: String)
    ensures
        r@ == signed_decimal(n as int),
{
    if n < 0 {
        negative_text(n)
    } else {
        decimal_text(n as u64)
    }
}

/// Writes `n` in decimal after its sign.
pub fn explicit_decimal_text(n: i64) -> (r: String)
    ensures
        r@ == explicit_decimal(n as int),
{
    if n < 0 {
        negative_text(n)
    } else {
        proof {
            reveal_strlit("+");
        }
        let mut r = "+".to_owned();
        r.append(decimal_text(n as u64).as_str());
        assert(r@ =~= explicit_decimal(n as int));
        r
    }
}

/// Writes the negative number `n` in decimal.
fn negative_text(n: i64) -> (r: String)
    requires
        n < 0,
    ensures
        r@ == seq!['-'] + decimal((-(n as int)) as nat),
{
    proof {
        reveal_strlit("-");
    }
    let mut r = "-".to_owned();
    let magnitude: u64 = (-(n + 1)) as u64 + 1;
    r.append(decimal_text(magnitude).as_str());
    assert("-"@ =~= seq!['-']);
    r
}

} // verus!
