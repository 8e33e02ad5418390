//! The closed vocabularies of the schema, its defaults, and the two text
//! checks that every closed field and every drawn string goes through.
use vstd::prelude::*;
use vstd::string::*;
use crate::text::{join, push_joined, same_text, texts};

verus! {

/// Frame aspect ratios.
pub open spec fn format_names() -> Seq<Seq<char>> {
    seq!["1:1"@, "16:9"@, "9:16"@]
}

/// Drawing styles; each names a palette.
pub open spec fn style_names() -> Seq<Seq<char>> {
    seq!["paper_ink"@, "riso_pop"@, "screen_sea"@, "pencil_minimal"@, "blueprint_night"@]
}

/// Camera framings.
pub open spec fn shot_names() -> Seq<Seq<char>> {
    seq!["wide"@, "medium"@, "close_up"@]
}

/// Things a scene can show.
pub open spec fn kind_names() -> Seq<Seq<char>> {
    seq!["boat"@, "fly"@, "balloon"@, "tortoise"@, "product"@, "text"@]
}

/// How an element moves during its scene.
pub open spec fn motion_names() -> Seq<Seq<char>> {
    seq!["still"@, "bob"@, "drift"@, "rise"@]
}

/// The accepted frame formats, in the order error messages list them.
pub fn formats() -> (v: Vec<&'static str>)
    ensures
        texts(v@) == format_names(),
{
    let v = vec!["1:1", "16:9", "9:16"];
    assert(texts(v@) =~= format_names());
    v
}

/// The accepted styles, in the order error messages list them.
pub fn styles() -> (v: Vec<&'static str>)
    ensures
        texts(v@) == style_names(),
{
    let v = vec!["paper_ink", "riso_pop", "screen_sea", "pencil_minimal", "blueprint_night"];
    assert(texts(v@) =~= style_names());
    v
}

/// The accepted shots, in the order error messages list them.
pub fn shots() -> (v: Vec<&'static str>)
    ensures
        texts(v@) == shot_names(),
{
    let v = vec!["wide", "medium", "close_up"];
    assert(texts(v@) =~= shot_names());
    v
}

/// The accepted element kinds, in the order error messages list them.
pub fn kinds() -> (v: Vec<&'static str>)
    ensures
        texts(v@) == kind_names(),
{
    let v = vec!["boat", "fly", "balloon", "tortoise", "product", "text"];
    assert(texts(v@) =~= kind_names());
    v
}

/// The accepted motions, in the order error messages list them.
pub fn motions() -> (v: Vec<&'static str>)
    ensures
        texts(v@) == motion_names(),
{
    let v = vec!["still", "bob", "drift", "rise"];
    assert(texts(v@) =~= motion_names());
    v
}

/// Format of a spec that names none.
pub fn default_format() -> (s: String)
    ensures
        s@ == "1:1"@,
{
    "1:1".to_owned()
}

/// Style of a spec that names none.
pub fn default_style() -> (s: String)
    ensures
        s@ == "paper_ink"@,
{
    "paper_ink".to_owned()
}

/// Shot of a scene that names none.
pub fn default_shot() -> (s: String)
    ensures
        s@ == "wide"@,
{
    "wide".to_owned()
}

/// Motion of an element that names none.
pub fn default_motion() -> (s: String)
    ensures
        s@ == "still"@,
{
    "still".to_owned()
}

/// Zoom of a camera point, and scale of an element, that name none: the
/// bit pattern of `1.0`.
pub fn one() -> (bits: u32)
    ensures
        bits == crate::binary32::ONE,
{
    crate::binary32::ONE
}

/// The vocabularies, value by value.
pub proof fn lemma_vocabulary_members(v: Seq<char>)
    ensures
        format_names().contains(v) <==> (v == "1:1"@ || v == "16:9"@ || v == "9:16"@),
        style_names().contains(v) <==> (v == "paper_ink"@ || v == "riso_pop"@ || v == "screen_sea"@
            || v == "pencil_minimal"@ || v == "blueprint_night"@),
        shot_names().contains(v) <==> (v == "wide"@ || v == "medium"@ || v == "close_up"@),
        kind_names().contains(v) <==> (v == "boat"@ || v == "fly"@ || v == "balloon"@
            || v == "tortoise"@ || v == "product"@ || v == "text"@),
        motion_names().contains(v) <==> (v == "still"@ || v == "bob"@ || v == "drift"@ || v == "rise"@),
{
    if v == "1:1"@ { assert(format_names()[0] == v); }
    if v == "16:9"@ { assert(format_names()[1] == v); }
    if v == "9:16"@ { assert(format_names()[2] == v); }
    if v == "paper_ink"@ { assert(style_names()[0] == v); }
    if v == "riso_pop"@ { assert(style_names()[1] == v); }
    if v == "screen_sea"@ { assert(style_names()[2] == v); }
    if v == "pencil_minimal"@ { assert(style_names()[3] == v); }
    if v == "blueprint_night"@ { assert(style_names()[4] == v); }
    if v == "wide"@ { assert(shot_names()[0] == v); }
    if v == "medium"@ { assert(shot_names()[1] == v); }
    if v == "close_up"@ { assert(shot_names()[2] == v); }
    if v == "boat"@ { assert(kind_names()[0] == v); }
    if v == "fly"@ { assert(kind_names()[1] == v); }
    if v == "balloon"@ { assert(kind_names()[2] == v); }
    if v == "tortoise"@ { assert(kind_names()[3] == v); }
    if v == "product"@ { assert(kind_names()[4] == v); }
    if v == "text"@ { assert(kind_names()[5] == v); }
    if v == "still"@ { assert(motion_names()[0] == v); }
    if v == "bob"@ { assert(motion_names()[1] == v); }
    if v == "drift"@ { assert(motion_names()[2] == v); }
    if v == "rise"@ { assert(motion_names()[3] == v); }
}

/// The defaults filled in for missing fields are themselves accepted by the
/// schema's vocabularies.
pub proof fn lemma_defaults_in_vocabularies()
    ensures
        format_names().contains("1:1"@),
        style_names().contains("paper_ink"@),
        shot_names().contains("wide"@),
        motion_names().contains("still"@),
{
    assert(format_names()[0] == "1:1"@);
    assert(style_names()[0] == "paper_ink"@);
    assert(shot_names()[0] == "wide"@);
    assert(motion_names()[0] == "still"@);
}

/// The message for a value outside its vocabulary.
pub open spec fn one_of_text(what: Seq<char>, value: Seq<char>, allowed: Seq<Seq<char>>) -> Seq<char> {
    what + ": '"@ + value + "' is not one of "@ + join(allowed, ", "@)
}

/// Accepts `value` when it is one of `allowed`; otherwise names `what`, the
/// value and the whole vocabulary.
pub fn one_of(what: &str, value: &str, allowed: &[&str]) -> (r: Result<(), String>)
    ensures
        r is Ok <==> texts(allowed@).contains(value@),
        r matches Err(m) ==> m@ == one_of_text(what@, value@, texts(allowed@)),
{
    let n = allowed.len();
    let mut i: usize = 0;
    while i < n
        invariant
            n == allowed@.len(),
            i <= n,
            forall|j: int| 0 <= j < i ==> allowed@[j]@ != value@,
        decreases n - i,
    {
        if same_text(allowed[i], value) {
            assert(texts(allowed@)[i as int] == value@);
            return Ok(());
        }
        i = i + 1;
    }
    assert(!texts(allowed@).contains(value@)) by {
        if texts(allowed@).contains(value@) {
            let k = choose|k: int| 0 <= k < texts(allowed@).len() && texts(allowed@)[k] == value@;
            assert(allowed@[k]@ == value@);
        }
    }
    let mut m = what.to_owned();
    m.append(": '");
    m.append(value);
    m.append("' is not one of ");
    push_joined(&mut m, allowed, ", ");
    Err(m)
}

/// Whether `c` is among the characters the vector font draws: capital
/// letters, digits, and ` .:-/°(),'!?` (the set its error message names).
pub open spec fn in_vector_charset(c: char) -> bool {
    ||| 'A' <= c <= 'Z'
    ||| '0' <= c <= '9'
    ||| c == ' ' || c == '.' || c == ':' || c == '-' || c == '/' || c == '°'
    ||| c == '(' || c == ')' || c == ',' || c == '\'' || c == '!' || c == '?'
}

/// `char::to_ascii_uppercase`: `a`–`z` become `A`–`Z`, all else stays.
pub open spec fn ascii_upper(c: char) -> char {
    if 'a' <= c <= 'z' {
        ((c as u32) - 32) as char
    } else {
        c
    }
}

/// The font draws `c` (in either case for ASCII letters).
pub open spec fn drawable_char(c: char) -> bool {
    in_vector_charset(ascii_upper(c))
}

/// The first character of `s` that the font cannot draw.
pub open spec fn first_undrawable(s: Seq<char>) -> Option<char>
    decreases s.len(),
{
    if s.len() == 0 {
        None
    } else if !drawable_char(s[0]) {
        Some(s[0])
    } else {
        first_undrawable(s.drop_first())
    }
}

/// The font draws exactly the ASCII letters of either case, the digits and
/// the characters of ` .:-/°(),'!?`.
pub proof fn lemma_drawable_characters(c: char)
    ensures
        drawable_char(c) <==> {
            ||| 'A' <= c <= 'Z'
            ||| 'a' <= c <= 'z'
            ||| '0' <= c <= '9'
            ||| c == ' ' || c == '.' || c == ':' || c == '-' || c == '/' || c == '°'
            ||| c == '(' || c == ')' || c == ',' || c == '\'' || c == '!' || c == '?'
        },
{
    if 'a' <= c <= 'z' {
        assert('A' <= ascii_upper(c) <= 'Z');
    }
}

/// Every character of `s` is one the font draws.
pub open spec fn all_drawable(s: Seq<char>) -> bool {
    forall|i: int| 0 <= i < s.len() ==> drawable_char(#[trigger] s[i])
}

/// `first_undrawable` finds nothing exactly when the font draws every character.
pub proof fn lemma_first_undrawable_none(s: Seq<char>)
    ensures
        first_undrawable(s) is None <==> all_drawable(s),
        first_undrawable(s) matches Some(c) ==> !drawable_char(c) && s.contains(c),
    decreases s.len(),
{
    if s.len() > 0 {
        lemma_first_undrawable_none(s.drop_first());
        if drawable_char(s[0]) {
            assert(all_drawable(s) <==> all_drawable(s.drop_first())) by {
                if all_drawable(s.drop_first()) {
                    assert forall|i: int| 0 <= i < s.len() implies drawable_char(#[trigger] s[i]) by {
                        if i > 0 {
                            assert(s[i] == s.drop_first()[i - 1]);
                        }
                    }
                }
            }
            if first_undrawable(s) is Some {
                let c = first_undrawable(s)->0;
                let k = choose|k: int| 0 <= k < s.drop_first().len() && s.drop_first()[k] == c;
                assert(s[k + 1] == c);
            }
        } else {
            assert(s[0] == s[0]);
        }
    }
}

/// `format!("{:?}", c)`: the character quoted and escaped as `Debug` writes it.
pub uninterp spec fn char_debug_text(c: char) -> Seq<char>;

/// Calls `format!("{:?}", c)`, that is `<char as Debug>::fmt`. Trusted: the
/// result is `char_debug_text(c)`, a function of `c` alone; nothing more is
/// stated of it (its escapes follow Unicode tables).
#[verifier::external_body]
fn char_debug(c: char) -> (s: String)
    ensures
        s@ == char_debug_text(c),
{
    format!("{:?}", c)
}

/// The message for a character the font cannot draw, given the character
/// as `Debug` writes it.
pub open spec fn undrawable_message_text(what: Seq<char>, shown: Seq<char>) -> Seq<char> {
    what + ": character "@ + shown + " cannot be drawn (allowed: letters, digits and \" .:-/°(),'!?\")"@
}

/// The message for a character the font cannot draw.
pub open spec fn undrawable_text(what: Seq<char>, c: char) -> Seq<char> {
    undrawable_message_text(what, char_debug_text(c))
}

/// Builds the message for a character the font cannot draw, from `what`
/// and the character as `Debug` writes it (`shown`).
pub fn undrawable_message(what: &str, shown: &str) -> (m: String)
    ensures
        m@ == undrawable_message_text(what@, shown@),
{
    let mut m = what.to_owned();
    m.append(": character ");
    m.append(shown);
    m.append(" cannot be drawn (allowed: letters, digits and \" .:-/°(),'!?\")");
    m
}

fn is_drawable(c: char) -> (r: bool)
    ensures
        r == drawable_char(c),
{
    let upper_ok = ('A' <= c && c <= 'Z') || ('0' <= c && c <= '9') || c == ' ' || c == '.'
        || c == ':' || c == '-' || c == '/' || c == '°' || c == '(' || c == ')' || c == ','
        || c == '\'' || c == '!' || c == '?';
    let lower = 'a' <= c && c <= 'z';
    proof {
        if lower {
            assert('A' <= ascii_upper(c) <= 'Z');
        }
    }
    upper_ok || lower
}

/// Accepts text the vector font can draw in full; otherwise names `what` and
/// the first character it would silently drop.
pub fn drawable(what: &str, text: &str) -> (r: Result<(), String>)
    ensures
        r is Ok <==> first_undrawable(text@) is None,
        r matches Err(m) ==> m@ == undrawable_text(what@, first_undrawable(text@)->0),
{
    let n = text.unicode_len();
    let mut i: usize = 0;
    assert(text@.skip(0) =~= text@);
    while i < n
        invariant
            n == text@.len(),
            i <= n,
            first_undrawable(text@) == first_undrawable(text@.skip(i as int)),
        decreases n - i,
    {
        let c = text.get_char(i);
        assert(text@.skip(i as int)[0] == c);
        if !is_drawable(c) {
            let shown = char_debug(c);
            return Err(undrawable_message(what, shown.as_str()));
        }
        assert(text@.skip(i as int).drop_first() =~= text@.skip(i + 1));
        i = i + 1;
    }
    assert(text@.skip(n as int).len() == 0);
    Ok(())
}

/// `char::is_whitespace`: the Unicode `White_Space` property.
pub open spec fn is_white_space(c: char) -> bool {
    ||| '\u{9}' <= c <= '\u{d}'
    ||| c == ' ' || c == '\u{85}' || c == '\u{a0}' || c == '\u{1680}'
    ||| '\u{2000}' <= c <= '\u{200a}'
    ||| c == '\u{2028}' || c == '\u{2029}' || c == '\u{202f}' || c == '\u{205f}' || c == '\u{3000}'
}

/// `s.trim().is_empty()`: nothing but white space.
pub open spec fn is_blank(s: Seq<char>) -> bool {
    forall|i: int| 0 <= i < s.len() ==> is_white_space(#[trigger] s[i])
}

fn white_space(c: char) -> (r: bool)
    ensures
        r == is_white_space(c),
{
    ('\u{9}' <= c && c <= '\u{d}') || c == ' ' || c == '\u{85}' || c == '\u{a0}' || c == '\u{1680}'
        || ('\u{2000}' <= c && c <= '\u{200a}') || c == '\u{2028}' || c == '\u{2029}'
        || c == '\u{202f}' || c == '\u{205f}' || c == '\u{3000}'
}

/// Whether `s` holds nothing but white space.
pub fn blank(s: &str) -> (r: bool)
    ensures
        r == is_blank(s@),
{
    let n = s.unicode_len();
    let mut i: usize = 0;
    while i < n
        invariant
            n == s@.len(),
            i <= n,
            forall|j: int| 0 <= j < i ==> is_white_space(#[trigger] s@[j]),
        decreases n - i,
    {
        if !white_space(s.get_char(i)) {
            return false;
        }
        i = i + 1;
    }
    true
}

} // verus!
