//! Colours for the messages of the program, by the escape sequences that
//! terminals read.

use crate::text::{append_chars, chars_of, string_of};
use vstd::prelude::*;

verus! {

/// The escape sequences that switch the codes on, one after the other.
pub open spec fn codes_text(codes: Seq<&str>) -> Seq<char>
    decreases codes.len(),
{
    if codes.len() == 0 {
        Seq::empty()
    } else {
        codes_text(codes.drop_last()) + "\x1b["@ + codes.last()@ + "m"@
    }
}

/// The text `s` in the style of the codes: after the escape sequences
/// that switch the codes on, and before the one that switches all off.
/// Where colours are not wanted, the text stays as it is.
pub open spec fn styled(s: Seq<char>, codes: Seq<&str>, no_color: bool) -> Seq<char> {
    if no_color {
        s
    } else {
        codes_text(codes) + s + "\x1b[0m"@
    }
}

/// The text `s` in the style of the codes.
pub fn style(s: &str, codes: &Vec<&str>, no_color: bool) -> (r: String)
    ensures
        r@ == styled(s@, codes@, no_color),
{
    let text = chars_of(s);
    if no_color {
        return string_of(&text);
    }
    let mut out: Vec<char> = Vec::new();
    let mut i: usize = 0;
    proof {
        assert(codes@.take(0) =~= Seq::<&str>::empty());
    }
    while i < codes.len()
        invariant
            i <= codes.len(),
            out@ == codes_text(codes@.take(i as int)),
        decreases codes.len() - i,
    {
        let start = chars_of("\x1b[");
        append_chars(&mut out, &start);
        let code = chars_of(codes[i]);
        append_chars(&mut out, &code);
        let end = chars_of("m");
        append_chars(&mut out, &end);
        proof {
            let now = codes@.take(i + 1);
            assert(now.drop_last() =~= codes@.take(i as int));
            assert(now.last() == codes@[i as int]);
        }
        i += 1;
    }
    proof {
        assert(codes@.take(codes.len() as int) =~= codes@);
    }
    append_chars(&mut out, &text);
    let reset = chars_of("\x1b[0m");
    append_chars(&mut out, &reset);
    string_of(&out)
}

/// The text `s` in bold red.
pub fn red_bold(s: &str, no_color: bool) -> (r: String)
    ensures
        r@ == styled(s@, seq!["31", "1"], no_color),
{
    let mut codes: Vec<&str> = Vec::new();
    codes.push("31");
    codes.push("1");
    proof {
        assert(codes@ =~= seq!["31", "1"]);
    }
    style(s, &codes, no_color)
}

/// The text `s` in bold green.
pub fn green_bold(s: &str, no_color: bool) -> (r: String)
    ensures
        r@ == styled(s@, seq!["32", "1"], no_color),
{
    let mut codes: Vec<&str> = Vec::new();
    codes.push("32");
    codes.push("1");
    proof {
        assert(codes@ =~= seq!["32", "1"]);
    }
    style(s, &codes, no_color)
}

} // verus!
