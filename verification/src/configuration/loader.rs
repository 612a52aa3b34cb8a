//! The configuration data the shell persists, and the colour choices it
//! makes from the configured strings.

use vstd::prelude::*;

use crate::utils::text::chars_of;
use vstd::string::StrSliceExecFns;
use vstd::string::StringExecFns;

verus! {

/// The greeting the shell prints, and its colour.
#[derive(Debug)]
pub struct Greeting {
    pub greeting_message: String,
    pub greeting_color: String,
}

/// The prompt text and its colour.
#[derive(Debug)]
pub struct Prompt {
    pub prompt: String,
    pub prompt_color: String,
}

/// The persisted configuration.
#[derive(Debug)]
pub struct Config {
    pub general_color: String,
    pub greeting: Greeting,
    pub prompt: Prompt,
}

impl Default for Greeting {
    fn default() -> (r: Self)
        ensures
            r.greeting_message@ == "Welcome to Calc %version% by %author%, type help for help"@,
            r.greeting_color@ == "blue"@,
    {
        Greeting {
            greeting_message: String::from_str(
                "Welcome to Calc %version% by %author%, type help for help",
            ),
            greeting_color: String::from_str("blue"),
        }
    }
}

impl Default for Prompt {
    fn default() -> (r: Self)
        ensures
            r.prompt@ == "> "@,
            r.prompt_color@ == "cyan"@,
    {
        Prompt { prompt: String::from_str("> "), prompt_color: String::from_str("cyan") }
    }
}

impl Default for Config {
    fn default() -> (r: Self)
        ensures
            r.general_color@ == "purple"@,
            r.greeting.greeting_color@ == "blue"@,
            r.prompt.prompt_color@ == "cyan"@,
    {
        Config {
            general_color: String::from_str("purple"),
            greeting: Greeting::default(),
            prompt: Prompt::default(),
        }
    }
}

/// The value of one hexadecimal digit, or 16 for any other character.
pub open spec fn hex_digit_val(c: char) -> nat {
    if '0' <= c && c <= '9' {
        (c as u32 - 48) as nat
    } else if 'a' <= c && c <= 'f' {
        (c as u32 - 87) as nat
    } else if 'A' <= c && c <= 'F' {
        (c as u32 - 55) as nat
    } else {
        16
    }
}

/// The byte two hexadecimal digits denote, or 255 where either is not a
/// digit, as a failed channel parse falls back to full intensity.
pub open spec fn hex_byte(c1: char, c2: char) -> u8 {
    if hex_digit_val(c1) < 16 && hex_digit_val(c2) < 16 {
        (hex_digit_val(c1) * 16 + hex_digit_val(c2)) as u8
    } else {
        255
    }
}

fn hex_digit(c: char) -> (r: u8)
    ensures
        r as nat == hex_digit_val(c),
{
    if c >= '0' && c <= '9' {
        ((c as u32) - 48) as u8
    } else if c >= 'a' && c <= 'f' {
        ((c as u32) - 87) as u8
    } else if c >= 'A' && c <= 'F' {
        ((c as u32) - 55) as u8
    } else {
        16
    }
}

fn hex_pair(c1: char, c2: char) -> (r: u8)
    ensures
        r == hex_byte(c1, c2),
{
    let d1 = hex_digit(c1);
    let d2 = hex_digit(c2);
    if d1 < 16 && d2 < 16 {
        d1 * 16 + d2
    } else {
        255
    }
}

/// Reads a six-digit hexadecimal colour into its red, green and blue
/// channels; a channel that does not parse falls back to 255.
pub fn load_rgb_color(s: &str) -> (r: (u8, u8, u8))
    requires
        s@.len() >= 6,
    ensures
        r.0 == hex_byte(s@[0], s@[1]),
        r.1 == hex_byte(s@[2], s@[3]),
        r.2 == hex_byte(s@[4], s@[5]),
{
    let v = chars_of(s);
    let rd = hex_pair(v[0], v[1]);
    let gd = hex_pair(v[2], v[3]);
    let bd = hex_pair(v[4], v[5]);
    (rd, gd, bd)
}

/// A colour choice: one of the shell's named colours, or a true-colour
/// triple.
#[derive(Debug, PartialEq)]
pub enum ColorSpec {
    Purple,
    Cyan,
    Blue,
    Black,
    Red,
    Yellow,
    Green,
    White,
    Rgb(u8, u8, u8),
}

/// The characters ASCII-lowered.
pub open spec fn lower_chars(s: Seq<char>) -> Seq<char> {
    s.map(|i: int, c: char| crate::lexing::lexer::spec_lower(c))
}

/// The colour a configured string names: its lowered text matched
/// against the eight names; otherwise a `#`-led string of at least seven
/// characters read as a six-digit true colour, falling back to cyan
/// where every channel came out 255 (the marker of a failed parse);
/// anything else is cyan.
pub open spec fn color_of(s: Seq<char>) -> ColorSpec {
    let low = lower_chars(s);
    if low == "purple"@ {
        ColorSpec::Purple
    } else if low == "cyan"@ {
        ColorSpec::Cyan
    } else if low == "blue"@ {
        ColorSpec::Blue
    } else if low == "black"@ {
        ColorSpec::Black
    } else if low == "red"@ {
        ColorSpec::Red
    } else if low == "yellow"@ {
        ColorSpec::Yellow
    } else if low == "green"@ {
        ColorSpec::Green
    } else if low == "white"@ {
        ColorSpec::White
    } else if low.len() >= 7 && low[0] == '#' {
        let rr = hex_byte(low[1], low[2]);
        let gg = hex_byte(low[3], low[4]);
        let bb = hex_byte(low[5], low[6]);
        if rr == 255 && gg == 255 && bb == 255 {
            ColorSpec::Cyan
        } else {
            ColorSpec::Rgb(rr, gg, bb)
        }
    } else {
        ColorSpec::Cyan
    }
}

/// Picks the colour a configured string names: one of the eight names,
/// or `#RRGGBB` read as a true colour; anything unreadable falls back to
/// cyan, as does an all-255 triple (the marker of a failed parse).
pub fn load_color(string: String) -> (r: ColorSpec)
    ensures
        r == color_of(string@),
        string@ == "purple"@ ==> r == ColorSpec::Purple,
        string@ == "cyan"@ ==> r == ColorSpec::Cyan,
        string@ == "blue"@ ==> r == ColorSpec::Blue,
        string@ == "black"@ ==> r == ColorSpec::Black,
        string@ == "red"@ ==> r == ColorSpec::Red,
        string@ == "yellow"@ ==> r == ColorSpec::Yellow,
        string@ == "green"@ ==> r == ColorSpec::Green,
        string@ == "white"@ ==> r == ColorSpec::White,
{
    proof {
        reveal_strlit("purple");
        reveal_strlit("cyan");
        reveal_strlit("blue");
        reveal_strlit("black");
        reveal_strlit("red");
        reveal_strlit("yellow");
        reveal_strlit("green");
        reveal_strlit("white");
        reveal_strlit("#");
    }
    proof {
        assert("purple"@.len() == 6);
        assert("cyan"@.len() == 4);
        assert("blue"@.len() == 4);
        assert("black"@.len() == 5);
        assert("red"@.len() == 3);
        assert("yellow"@.len() == 6);
        assert("green"@.len() == 5);
        assert("white"@.len() == 5);
        assert("purple"@ != "cyan"@);
        assert("purple"@ != "blue"@);
        assert("purple"@ != "black"@);
        assert("purple"@ != "red"@);
        assert("purple"@[0] != "yellow"@[0]);
        assert("purple"@ != "yellow"@);
        assert("purple"@ != "green"@);
        assert("purple"@ != "white"@);
        assert("cyan"@[0] != "blue"@[0]);
        assert("cyan"@ != "blue"@);
        assert("cyan"@ != "black"@);
        assert("cyan"@ != "red"@);
        assert("cyan"@ != "yellow"@);
        assert("cyan"@ != "green"@);
        assert("cyan"@ != "white"@);
        assert("blue"@ != "black"@);
        assert("blue"@ != "red"@);
        assert("blue"@ != "yellow"@);
        assert("blue"@ != "green"@);
        assert("blue"@ != "white"@);
        assert("black"@ != "red"@);
        assert("black"@ != "yellow"@);
        assert("black"@[0] != "green"@[0]);
        assert("black"@ != "green"@);
        assert("black"@[0] != "white"@[0]);
        assert("black"@ != "white"@);
        assert("red"@ != "yellow"@);
        assert("red"@ != "green"@);
        assert("red"@ != "white"@);
        assert("yellow"@ != "green"@);
        assert("yellow"@ != "white"@);
        assert("green"@[0] != "white"@[0]);
        assert("green"@ != "white"@);
    }
    let v = chars_of(string.as_str());
    let mut lowered: Vec<char> = Vec::new();
    let mut i: usize = 0;
    while i < v.len()
        invariant
            i <= v@.len(),
            lowered@.len() == i,
            forall|j: int|
                0 <= j < i ==> lowered@[j] == crate::lexing::lexer::spec_lower(v@[j]),
        decreases v@.len() - i,
    {
        lowered.push(lower_ascii(v[i]));
        i += 1;
    }
    let low = crate::utils::text::from_chars(&lowered);
    proof {
        assert(low@ =~= lower_chars(string@));
        assert(string@ == "purple"@ ==> low@ =~= "purple"@);
        assert(string@ == "cyan"@ ==> low@ =~= "cyan"@);
        assert(string@ == "blue"@ ==> low@ =~= "blue"@);
        assert(string@ == "black"@ ==> low@ =~= "black"@);
        assert(string@ == "red"@ ==> low@ =~= "red"@);
        assert(string@ == "yellow"@ ==> low@ =~= "yellow"@);
        assert(string@ == "green"@ ==> low@ =~= "green"@);
        assert(string@ == "white"@ ==> low@ =~= "white"@);
    }
    if str_eq_lit(&low, "purple") {
        ColorSpec::Purple
    } else if str_eq_lit(&low, "cyan") {
        ColorSpec::Cyan
    } else if str_eq_lit(&low, "blue") {
        ColorSpec::Blue
    } else if str_eq_lit(&low, "black") {
        ColorSpec::Black
    } else if str_eq_lit(&low, "red") {
        ColorSpec::Red
    } else if str_eq_lit(&low, "yellow") {
        ColorSpec::Yellow
    } else if str_eq_lit(&low, "green") {
        ColorSpec::Green
    } else if str_eq_lit(&low, "white") {
        ColorSpec::White
    } else {
        let lv = chars_of(low.as_str());
        if lv.len() >= 7 && lv[0] == '#' {
            let mut tail: Vec<char> = Vec::new();
            let mut k: usize = 1;
            while k < lv.len()
                invariant
                    1 <= k <= lv@.len(),
                    tail@ == lv@.subrange(1, k as int),
                decreases lv@.len() - k,
            {
                tail.push(lv[k]);
                proof {
                    assert(tail@ =~= lv@.subrange(1, k as int + 1));
                }
                k += 1;
            }
            let ts = crate::utils::text::from_chars(&tail);
            let (rr, gg, bb) = load_rgb_color(ts.as_str());
            proof {
                assert(ts@[0] == low@[1] && ts@[1] == low@[2] && ts@[2] == low@[3] && ts@[3]
                    == low@[4] && ts@[4] == low@[5] && ts@[5] == low@[6]);
            }
            if rr == 255 && gg == 255 && bb == 255 {
                ColorSpec::Cyan
            } else {
                ColorSpec::Rgb(rr, gg, bb)
            }
        } else {
            ColorSpec::Cyan
        }
    }
}

fn lower_ascii(c: char) -> (r: char)
    ensures
        r == crate::lexing::lexer::spec_lower(c),
{
    if c >= 'A' && c <= 'Z' {
        (((c as u32) + 32) as u8) as char
    } else {
        c
    }
}

fn str_eq_lit(s: &String, lit: &str) -> (r: bool)
    ensures
        r == (s@ == lit@),
{
    let o = String::from_str(lit);
    s.eq(&o)
}

/// The string with every occurrence of the pattern replaced, scanning
/// left to right; an empty pattern leaves the string unchanged.
pub open spec fn replace_all(s: Seq<char>, pat: Seq<char>, sub: Seq<char>) -> Seq<char>
    decreases s.len() when pat.len() > 0
{
    if pat.len() == 0 {
        s
    } else if s.len() < pat.len() {
        s
    } else if s.take(pat.len() as int) == pat {
        sub + replace_all(s.skip(pat.len() as int), pat, sub)
    } else {
        seq![s[0]] + replace_all(s.drop_first(), pat, sub)
    }
}

#[verifier::loop_isolation(false)]
fn starts_with_at(v: &Vec<char>, pos: usize, pat: &Vec<char>) -> (r: bool)
    requires
        pos <= v@.len(),
    ensures
        r == (v@.len() - pos >= pat@.len() && v@.skip(pos as int).take(pat@.len() as int)
            =~= pat@),
{
    if v.len() - pos < pat.len() {
        proof {
            assert(v@.skip(pos as int).len() < pat@.len());
        }
        return false;
    }
    let mut i: usize = 0;
    while i < pat.len()
        invariant
            i <= pat@.len(),
            pos <= v@.len(),
            pat@.len() <= v@.len() - pos,
            forall|j: int| 0 <= j < i ==> v@[pos + j] == pat@[j],
        decreases pat@.len() - i,
    {
        if v[pos + i] != pat[i] {
            proof {
                assert(v@.skip(pos as int).take(pat@.len() as int)[i as int] != pat@[i as int]);
            }
            return false;
        }
        i += 1;
    }
    proof {
        assert(v@.skip(pos as int).take(pat@.len() as int) =~= pat@);
    }
    true
}

#[verifier::loop_isolation(false)]
fn replace_one_pattern(s: &String, pat: &str, sub: &str) -> (r: String)
    requires
        pat@.len() > 0,
    ensures
        r@ == replace_all(s@, pat@, sub@),
{
    let v = chars_of(s.as_str());
    let pv = chars_of(pat);
    let sv = chars_of(sub);
    let mut out: Vec<char> = Vec::new();
    let mut pos: usize = 0;
    proof {
        assert(v@.skip(0) =~= v@);
    }
    while pos < v.len()
        invariant
            pos <= v@.len(),
            pv@.len() > 0,
            v@ == s@,
            pv@ == pat@,
            sv@ == sub@,
            out@ + replace_all(v@.skip(pos as int), pv@, sv@) =~= replace_all(v@, pv@, sv@),
        decreases v@.len() - pos,
    {
        if starts_with_at(&v, pos, &pv) {
            let ghost pre = out@;
            let mut k: usize = 0;
            while k < sv.len()
                invariant
                    k <= sv@.len(),
                    out@ =~= pre + sv@.take(k as int),
                decreases sv@.len() - k,
            {
                out.push(sv[k]);
                proof {
                    assert(out@ =~= pre + sv@.take(k as int + 1));
                }
                k += 1;
            }
            proof {
                assert(out@ =~= pre + sv@);
            }
            proof {
                assert(v@.skip(pos as int).skip(pv@.len() as int) =~= v@.skip(
                    pos as int + pv@.len() as int,
                ));
            }
            pos = pos + pv.len();
        } else {
            proof {
                assert(v@.skip(pos as int)[0] == v@[pos as int]);
                assert(v@.skip(pos as int).drop_first() =~= v@.skip(pos as int + 1));
                if v@.skip(pos as int).len() >= pv@.len() {
                    assert(!(v@.skip(pos as int).take(pv@.len() as int) == pv@));
                }
            }
            out.push(v[pos]);
            pos += 1;
        }
    }
    proof {
        assert(v@.skip(pos as int).len() == 0);
        assert(replace_all(v@.skip(pos as int), pv@, sv@) =~= Seq::<char>::empty());
        assert(out@ =~= replace_all(v@, pv@, sv@));
    }
    crate::utils::text::from_chars(&out)
}

/// Fills the placeholders of the greeting: the author and version marks
/// become their text.
pub fn replace_variable(str: String) -> (r: String)
    ensures
        r@ == replace_all(
            replace_all(str@, "%author%"@, "Charlotte Thomas"@),
            "%version%"@,
            "v2.7.0"@,
        ),
{
    proof {
        reveal_strlit("%author%");
        reveal_strlit("%version%");
    }
    let first = replace_one_pattern(&str, "%author%", "Charlotte Thomas");
    replace_one_pattern(&first, "%version%", "v2.7.0")
}

/// The help text of the configuration commands.
pub fn show_help_config() -> (r: String)
    ensures
        r@.len() > 0,
{
    proof {
        reveal_strlit(
            "Config help, \n > config show: show config \n > config set: set config \n > config reload: reload config \n > config reset: reset config\n\n",
        );
    }
    String::from_str(
        "Config help, \n > config show: show config \n > config set: set config \n > config reload: reload config \n > config reset: reset config\n\n",
    )
}

} // verus!
