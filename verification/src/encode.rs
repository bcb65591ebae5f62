//! The chat-markup transcoder: a lexer for a constrained Markdown
//! dialect plus an inline dollar-code mini-language, and an encoder
//! that renders the resulting tokens as wire-protocol control bytes
//! and literal text.
//!
//! The grammar is ordered alternation with first-match-wins semantics:
//! at each position a maximal plain run is tried first, then a
//! delimiter-balanced markdown span (longest delimiter first), then —
//! unless `markdown_only` suppresses it — an inline dollar directive,
//! and finally a single unknown character, which guarantees progress
//! and hence that lexing always consumes the whole input.
use vstd::prelude::*;

use crate::formatting::{Color, Modifier};
use crate::strutil::digit_val;
use crate::strutil::is_digit;
use crate::strutil::matches_at;
use crate::strutil::push_char;
use crate::strutil::tag_at;

verus! {

/// A delimiter-balanced markdown span with its inner, de-escaped text.
#[derive(Debug)]
pub enum Markdown {
    Bold(String),
    Italic(String),
    ItalicBold(String),
    Code(String),
    Spoiler(String),
}

/// An inline dollar-code formatting directive.
#[derive(Debug)]
pub enum Dollar {
    Bold,
    Italics,
    Monospace,
    Reset,
    StartColor(Color, Option<Color>),
    EndColor,
}

/// A lexer token. Every character of the input ends up in exactly one
/// token.
#[derive(Debug)]
pub enum Token {
    Plain(String),
    Markdown(Markdown),
    Dollar(Dollar),
    Unknown(char),
}

/// The mathematical image of a `Markdown` span.
pub enum MarkdownModel {
    Bold(Seq<char>),
    Italic(Seq<char>),
    ItalicBold(Seq<char>),
    Code(Seq<char>),
    Spoiler(Seq<char>),
}

/// The mathematical image of a `Token`.
pub enum TokenModel {
    Plain(Seq<char>),
    Markdown(MarkdownModel),
    Dollar(Dollar),
    Unknown(char),
}

impl Markdown {
    /// The mathematical image of this span.
    pub open spec fn model(self) -> MarkdownModel {
        match self {
            Markdown::Bold(t) => MarkdownModel::Bold(t@),
            Markdown::Italic(t) => MarkdownModel::Italic(t@),
            Markdown::ItalicBold(t) => MarkdownModel::ItalicBold(t@),
            Markdown::Code(t) => MarkdownModel::Code(t@),
            Markdown::Spoiler(t) => MarkdownModel::Spoiler(t@),
        }
    }
}

impl Token {
    /// The mathematical image of this token.
    pub open spec fn model(self) -> TokenModel {
        match self {
            Token::Plain(t) => TokenModel::Plain(t@),
            Token::Markdown(m) => TokenModel::Markdown(m.model()),
            Token::Dollar(d) => TokenModel::Dollar(d),
            Token::Unknown(c) => TokenModel::Unknown(c),
        }
    }
}

/// The images of a token sequence.
pub open spec fn tokens_model(ts: Seq<Token>) -> Seq<TokenModel> {
    ts.map_values(|t: Token| t.model())
}

// ------------------------------------------------------------------
// The grammar, stated over character sequences.
// ------------------------------------------------------------------

/// The reserved markdown delimiter characters.
pub open spec fn is_delim(c: char) -> bool {
    c == '*' || c == '_' || c == '`' || c == '|'
}

/// An ordinary character: one with no formatting meaning at all. The
/// dollar sign is ordinary only when directives are suppressed.
pub open spec fn is_ordinary(c: char, markdown_only: bool) -> bool {
    !is_delim(c) && (markdown_only || c != '$')
}

/// How many characters an escaped-or-ordinary character consumes at
/// position `i`: 2 for an escape pair, 1 for an ordinary character, 0
/// when neither grammar rule applies there.
pub open spec fn esc_len(s: Seq<char>, i: int, markdown_only: bool) -> int {
    if 0 <= i && i + 2 <= s.len() && s[i] == '\\' && is_delim(s[i + 1]) {
        2
    } else if !markdown_only && 0 <= i && i + 2 <= s.len() && s[i] == '\\' && s[i + 1] == '$' {
        2
    } else if !markdown_only && 0 <= i && i + 2 <= s.len() && s[i] == '$' && s[i + 1] == '$' {
        2
    } else if 0 <= i && i < s.len() && is_ordinary(s[i], markdown_only) {
        1
    } else {
        0
    }
}

/// The character an escaped-or-ordinary character collapses to: the
/// bare delimiter for an escape pair, the character itself otherwise.
pub open spec fn esc_char(s: Seq<char>, i: int, markdown_only: bool) -> char {
    if esc_len(s, i, markdown_only) == 2 {
        s[i + 1]
    } else {
        s[i]
    }
}

/// Where the maximal (greedy) plain run starting at `i` ends.
pub open spec fn plain_end(s: Seq<char>, i: int, markdown_only: bool) -> int
    decreases s.len() - i,
{
    if 0 <= i && i < s.len() && esc_len(s, i, markdown_only) > 0 {
        plain_end(s, i + esc_len(s, i, markdown_only), markdown_only)
    } else {
        i
    }
}

/// The de-escaped text of the maximal plain run starting at `i`.
pub open spec fn plain_text(s: Seq<char>, i: int, markdown_only: bool) -> Seq<char>
    decreases s.len() - i,
{
    if 0 <= i && i < s.len() && esc_len(s, i, markdown_only) > 0 {
        seq![esc_char(s, i, markdown_only)] + plain_text(
            s,
            i + esc_len(s, i, markdown_only),
            markdown_only,
        )
    } else {
        Seq::empty()
    }
}

/// A delimited span: the opening delimiter at `i`, a non-empty greedy
/// plain run, then the closing delimiter exactly where the run stops.
/// Yields the de-escaped inner text and the position after the closing
/// delimiter.
pub open spec fn delim_span(
    s: Seq<char>,
    i: int,
    markdown_only: bool,
    open: Seq<char>,
    close: Seq<char>,
) -> Option<(Seq<char>, int)> {
    if matches_at(s, i, open) {
        let j = i + open.len();
        let e = plain_end(s, j, markdown_only);
        if e > j && matches_at(s, e, close) {
            Some((plain_text(s, j, markdown_only), e + close.len()))
        } else {
            None
        }
    } else {
        None
    }
}

/// A markdown span at position `i`, trying the delimiters in strict
/// priority order: triple delimiters, then double, then single, then
/// backtick code, then the double-pipe spoiler.
pub open spec fn spec_markdown(s: Seq<char>, i: int, markdown_only: bool) -> Option<
    (MarkdownModel, int),
> {
    let ib1 = delim_span(s, i, markdown_only, "___"@, "___"@);
    let ib2 = delim_span(s, i, markdown_only, "***"@, "***"@);
    let ib3 = delim_span(s, i, markdown_only, "**_"@, "_**"@);
    let ib4 = delim_span(s, i, markdown_only, "__*"@, "*__"@);
    let b1 = delim_span(s, i, markdown_only, "__"@, "__"@);
    let b2 = delim_span(s, i, markdown_only, "**"@, "**"@);
    let it1 = delim_span(s, i, markdown_only, "_"@, "_"@);
    let it2 = delim_span(s, i, markdown_only, "*"@, "*"@);
    let co = delim_span(s, i, markdown_only, "`"@, "`"@);
    let sp = delim_span(s, i, markdown_only, "||"@, "||"@);
    if ib1 is Some {
        Some((MarkdownModel::ItalicBold(ib1.unwrap().0), ib1.unwrap().1))
    } else if ib2 is Some {
        Some((MarkdownModel::ItalicBold(ib2.unwrap().0), ib2.unwrap().1))
    } else if ib3 is Some {
        Some((MarkdownModel::ItalicBold(ib3.unwrap().0), ib3.unwrap().1))
    } else if ib4 is Some {
        Some((MarkdownModel::ItalicBold(ib4.unwrap().0), ib4.unwrap().1))
    } else if b1 is Some {
        Some((MarkdownModel::Bold(b1.unwrap().0), b1.unwrap().1))
    } else if b2 is Some {
        Some((MarkdownModel::Bold(b2.unwrap().0), b2.unwrap().1))
    } else if it1 is Some {
        Some((MarkdownModel::Italic(it1.unwrap().0), it1.unwrap().1))
    } else if it2 is Some {
        Some((MarkdownModel::Italic(it2.unwrap().0), it2.unwrap().1))
    } else if co is Some {
        Some((MarkdownModel::Code(co.unwrap().0), co.unwrap().1))
    } else if sp is Some {
        Some((MarkdownModel::Spoiler(sp.unwrap().0), sp.unwrap().1))
    } else {
        None
    }
}

/// A palette color name at position `i`, tried in the palette's fixed
/// order.
pub open spec fn color_name_at(s: Seq<char>, i: int) -> Option<(Color, int)> {
    if matches_at(s, i, "white"@) {
        Some((Color::White, i + "white"@.len()))
    } else if matches_at(s, i, "black"@) {
        Some((Color::Black, i + "black"@.len()))
    } else if matches_at(s, i, "blue"@) {
        Some((Color::Blue, i + "blue"@.len()))
    } else if matches_at(s, i, "green"@) {
        Some((Color::Green, i + "green"@.len()))
    } else if matches_at(s, i, "red"@) {
        Some((Color::Red, i + "red"@.len()))
    } else if matches_at(s, i, "brown"@) {
        Some((Color::Brown, i + "brown"@.len()))
    } else if matches_at(s, i, "magenta"@) {
        Some((Color::Magenta, i + "magenta"@.len()))
    } else if matches_at(s, i, "orange"@) {
        Some((Color::Orange, i + "orange"@.len()))
    } else if matches_at(s, i, "yellow"@) {
        Some((Color::Yellow, i + "yellow"@.len()))
    } else if matches_at(s, i, "lightgreen"@) {
        Some((Color::LightGreen, i + "lightgreen"@.len()))
    } else if matches_at(s, i, "cyan"@) {
        Some((Color::Cyan, i + "cyan"@.len()))
    } else if matches_at(s, i, "lightcyan"@) {
        Some((Color::LightCyan, i + "lightcyan"@.len()))
    } else if matches_at(s, i, "lightblue"@) {
        Some((Color::LightBlue, i + "lightblue"@.len()))
    } else if matches_at(s, i, "pink"@) {
        Some((Color::Pink, i + "pink"@.len()))
    } else if matches_at(s, i, "grey"@) {
        Some((Color::Grey, i + "grey"@.len()))
    } else if matches_at(s, i, "lightgrey"@) {
        Some((Color::LightGrey, i + "lightgrey"@.len()))
    } else {
        None
    }
}

/// A 1- or 2-digit numeric color code at position `i`. The digit run is
/// greedy: when two digits are present the two-digit number must be a
/// valid code — there is no retry with only the first digit.
pub open spec fn color_digit_at(s: Seq<char>, i: int) -> Option<(Color, int)> {
    if 0 <= i && i < s.len() && is_digit(s[i]) {
        if i + 1 < s.len() && is_digit(s[i + 1]) {
            match Color::spec_from_code((10 * digit_val(s[i]) + digit_val(s[i + 1])) as u8) {
                Some(c) => Some((c, i + 2)),
                None => None,
            }
        } else {
            match Color::spec_from_code(digit_val(s[i]) as u8) {
                Some(c) => Some((c, i + 1)),
                None => None,
            }
        }
    } else {
        None
    }
}

/// A color value at position `i`: a palette name, or else a numeric
/// code.
pub open spec fn color_at(s: Seq<char>, i: int) -> Option<(Color, int)> {
    match color_name_at(s, i) {
        Some(r) => Some(r),
        None => color_digit_at(s, i),
    }
}

/// An inline dollar directive at position `i`. A `$c` followed by a
/// valid color (optionally `,` and a background color) starts a color
/// run; a `$c` followed by no valid color is the end-color directive.
pub open spec fn spec_dollar(s: Seq<char>, i: int) -> Option<(Dollar, int)> {
    if matches_at(s, i, "$b"@) {
        Some((Dollar::Bold, i + 2))
    } else if matches_at(s, i, "$i"@) {
        Some((Dollar::Italics, i + 2))
    } else if matches_at(s, i, "$m"@) {
        Some((Dollar::Monospace, i + 2))
    } else if matches_at(s, i, "$r"@) {
        Some((Dollar::Reset, i + 2))
    } else if matches_at(s, i, "$c"@) {
        match color_at(s, i + 2) {
            Some((fg, k)) => {
                if k < s.len() && s[k] == ',' && color_at(s, k + 1) is Some {
                    let (bg, m) = color_at(s, k + 1).unwrap();
                    Some((Dollar::StartColor(fg, Some(bg)), m))
                } else {
                    Some((Dollar::StartColor(fg, None), k))
                }
            },
            None => Some((Dollar::EndColor, i + 2)),
        }
    } else {
        None
    }
}

/// The token at position `i` and the position where it ends. Total for
/// every in-range position: the unknown-character rule always applies.
pub open spec fn spec_token(s: Seq<char>, i: int, markdown_only: bool) -> (TokenModel, int) {
    if esc_len(s, i, markdown_only) > 0 {
        (TokenModel::Plain(plain_text(s, i, markdown_only)), plain_end(s, i, markdown_only))
    } else {
        match spec_markdown(s, i, markdown_only) {
            Some((m, e)) => (TokenModel::Markdown(m), e),
            None => if !markdown_only {
                match spec_dollar(s, i) {
                    Some((d, e)) => (TokenModel::Dollar(d), e),
                    None => (TokenModel::Unknown(s[i]), i + 1),
                }
            } else {
                (TokenModel::Unknown(s[i]), i + 1)
            },
        }
    }
}

/// The token sequence of the input from position `i` to the end.
pub open spec fn spec_lex(s: Seq<char>, i: int, markdown_only: bool) -> Seq<TokenModel>
    decreases s.len() - i,
    when 0 <= i <= s.len()
    via spec_lex_dec
{
    if i >= s.len() {
        Seq::empty()
    } else {
        seq![spec_token(s, i, markdown_only).0] + spec_lex(
            s,
            spec_token(s, i, markdown_only).1,
            markdown_only,
        )
    }
}

#[via_fn]
proof fn spec_lex_dec(s: Seq<char>, i: int, markdown_only: bool) {
    if i < s.len() {
        lemma_token_bounds(s, i, markdown_only);
    }
}

// ------------------------------------------------------------------
// Bounds of the grammar functions: every rule stays inside the input
// and consumes at least one character.
// ------------------------------------------------------------------

/// The greedy plain run never leaves the input and never moves
/// backwards.
pub proof fn lemma_plain_end_bounds(s: Seq<char>, i: int, markdown_only: bool)
    requires
        0 <= i <= s.len(),
    ensures
        i <= plain_end(s, i, markdown_only) <= s.len(),
    decreases s.len() - i,
{
    if i < s.len() && esc_len(s, i, markdown_only) > 0 {
        lemma_plain_end_bounds(s, i + esc_len(s, i, markdown_only), markdown_only);
    }
}

/// A color value ends inside the input, after at least one character.
proof fn lemma_color_at_bounds(s: Seq<char>, i: int)
    requires
        0 <= i,
    ensures
        color_at(s, i) matches Some((c, k)) ==> i < k <= s.len(),
{
    reveal_strlit("white");
    reveal_strlit("black");
    reveal_strlit("blue");
    reveal_strlit("green");
    reveal_strlit("red");
    reveal_strlit("brown");
    reveal_strlit("magenta");
    reveal_strlit("orange");
    reveal_strlit("yellow");
    reveal_strlit("lightgreen");
    reveal_strlit("cyan");
    reveal_strlit("lightcyan");
    reveal_strlit("lightblue");
    reveal_strlit("pink");
    reveal_strlit("grey");
    reveal_strlit("lightgrey");
}

/// A dollar directive ends inside the input, after at least one
/// character.
proof fn lemma_dollar_bounds(s: Seq<char>, i: int)
    requires
        0 <= i,
    ensures
        spec_dollar(s, i) matches Some((d, e)) ==> i < e <= s.len(),
{
    reveal_strlit("$b");
    reveal_strlit("$i");
    reveal_strlit("$m");
    reveal_strlit("$r");
    reveal_strlit("$c");
    lemma_color_at_bounds(s, i + 2);
    if matches_at(s, i, "$c"@) {
        match color_at(s, i + 2) {
            Some((fg, k)) => {
                if k < s.len() && s[k] == ',' && color_at(s, k + 1) is Some {
                    lemma_color_at_bounds(s, k + 1);
                }
            },
            None => {},
        }
    }
}

/// A markdown span ends inside the input, after at least one character.
proof fn lemma_markdown_bounds(s: Seq<char>, i: int, markdown_only: bool)
    requires
        0 <= i,
    ensures
        spec_markdown(s, i, markdown_only) matches Some((m, e)) ==> i < e <= s.len(),
{
    reveal_strlit("___");
    reveal_strlit("***");
    reveal_strlit("**_");
    reveal_strlit("_**");
    reveal_strlit("__*");
    reveal_strlit("*__");
    reveal_strlit("__");
    reveal_strlit("**");
    reveal_strlit("_");
    reveal_strlit("*");
    reveal_strlit("`");
    reveal_strlit("||");
}

/// Every token consumes at least one character and ends inside the
/// input.
pub proof fn lemma_token_bounds(s: Seq<char>, i: int, markdown_only: bool)
    requires
        0 <= i < s.len(),
    ensures
        i < spec_token(s, i, markdown_only).1 <= s.len(),
{
    if esc_len(s, i, markdown_only) > 0 {
        lemma_plain_end_bounds(s, i + esc_len(s, i, markdown_only), markdown_only);
    } else {
        lemma_markdown_bounds(s, i, markdown_only);
        lemma_dollar_bounds(s, i);
    }
}

// ------------------------------------------------------------------
// The executable lexer.
// ------------------------------------------------------------------

/// The escaped-or-ordinary character at position `i`: the collapsed
/// character and the position after it.
fn esc_at(s: &str, n: usize, i: usize, markdown_only: bool) -> (r: Option<(char, usize)>)
    requires
        n == s@.len(),
        i <= n,
    ensures
        (r is Some) == (esc_len(s@, i as int, markdown_only) > 0),
        r matches Some((c, j)) ==> c == esc_char(s@, i as int, markdown_only) && j == i + esc_len(
            s@,
            i as int,
            markdown_only,
        ),
{
    if i >= n {
        return None;
    }
    let c0 = s.get_char(i);
    if c0 == '\\' {
        if i + 1 < n {
            let c1 = s.get_char(i + 1);
            if c1 == '*' || c1 == '_' || c1 == '`' || c1 == '|' {
                return Some((c1, i + 2));
            }
            if !markdown_only && c1 == '$' {
                return Some(('$', i + 2));
            }
        }
        return Some(('\\', i + 1));
    }
    if c0 == '$' {
        if markdown_only {
            return Some(('$', i + 1));
        }
        if i + 1 < n {
            let c1 = s.get_char(i + 1);
            if c1 == '$' {
                return Some(('$', i + 2));
            }
        }
        return None;
    }
    if c0 == '*' || c0 == '_' || c0 == '`' || c0 == '|' {
        return None;
    }
    Some((c0, i + 1))
}

/// The maximal plain run starting at `i`: its de-escaped text and the
/// position where it ends. `None` when no escaped-or-ordinary character
/// starts there.
fn plain_at(s: &str, n: usize, i: usize, markdown_only: bool) -> (r: Option<(String, usize)>)
    requires
        n == s@.len(),
        i <= n,
    ensures
        (r is Some) == (esc_len(s@, i as int, markdown_only) > 0),
        r matches Some((t, e)) ==> t@ == plain_text(s@, i as int, markdown_only) && e == plain_end(
            s@,
            i as int,
            markdown_only,
        ),
{
    match esc_at(s, n, i, markdown_only) {
        None => None,
        Some((c0, j0)) => {
            let mut text = String::new();
            push_char(&mut text, c0);
            let mut pos = j0;
            proof {
                assert(text@ =~= seq![esc_char(s@, i as int, markdown_only)]);
                assert(plain_text(s@, i as int, markdown_only) =~= text@ + plain_text(
                    s@,
                    pos as int,
                    markdown_only,
                ));
            }
            loop
                invariant
                    n == s@.len(),
                    i <= pos <= n,
                    plain_end(s@, i as int, markdown_only) == plain_end(
                        s@,
                        pos as int,
                        markdown_only,
                    ),
                    plain_text(s@, i as int, markdown_only) == text@ + plain_text(
                        s@,
                        pos as int,
                        markdown_only,
                    ),
                ensures
                    i <= pos <= n,
                    esc_len(s@, pos as int, markdown_only) == 0,
                    plain_end(s@, i as int, markdown_only) == plain_end(
                        s@,
                        pos as int,
                        markdown_only,
                    ),
                    plain_text(s@, i as int, markdown_only) == text@ + plain_text(
                        s@,
                        pos as int,
                        markdown_only,
                    ),
                decreases n - pos,
            {
                match esc_at(s, n, pos, markdown_only) {
                    None => { break ; },
                    Some((c, j)) => {
                        proof {
                            assert(plain_text(s@, pos as int, markdown_only) =~= seq![
                                esc_char(s@, pos as int, markdown_only)] + plain_text(
                                s@,
                                j as int,
                                markdown_only,
                            ));
                        }
                        push_char(&mut text, c);
                        pos = j;
                        proof {
                            assert(plain_text(s@, i as int, markdown_only) =~= text@ + plain_text(
                                s@,
                                pos as int,
                                markdown_only,
                            ));
                        }
                    },
                }
            }
            proof {
                assert(plain_text(s@, pos as int, markdown_only) =~= Seq::<char>::empty());
                assert(text@ + Seq::<char>::empty() =~= text@);
            }
            Some((text, pos))
        },
    }
}

/// A delimited markdown span with the given opening and closing
/// delimiter, per `delim_span`.
fn span_at(s: &str, n: usize, i: usize, markdown_only: bool, open: &str, close: &str) -> (r: Option<
    (String, usize),
>)
    requires
        n == s@.len(),
        i <= n,
    ensures
        (r is Some) == (delim_span(s@, i as int, markdown_only, open@, close@) is Some),
        r matches Some((t, e)) ==> Some((t@, e as int)) == delim_span(
            s@,
            i as int,
            markdown_only,
            open@,
            close@,
        ),
{
    if !tag_at(s, n, i, open) {
        return None;
    }
    let on = open.unicode_len();
    let j = i + on;
    match plain_at(s, n, j, markdown_only) {
        None => None,
        Some((t, e)) => {
            proof {
                lemma_plain_end_bounds(s@, j as int, markdown_only);
            }
            if e > j && tag_at(s, n, e, close) {
                let cn = close.unicode_len();
                Some((t, e + cn))
            } else {
                None
            }
        },
    }
}

/// A markdown span at position `i`, per `spec_markdown`.
fn markdown_at(s: &str, n: usize, i: usize, markdown_only: bool) -> (r: Option<(Markdown, usize)>)
    requires
        n == s@.len(),
        i <= n,
    ensures
        (r is Some) == (spec_markdown(s@, i as int, markdown_only) is Some),
        r matches Some((m, e)) ==> Some((m.model(), e as int)) == spec_markdown(
            s@,
            i as int,
            markdown_only,
        ),
{
    if let Some((t, e)) = span_at(s, n, i, markdown_only, "___", "___") {
        return Some((Markdown::ItalicBold(t), e));
    }
    if let Some((t, e)) = span_at(s, n, i, markdown_only, "***", "***") {
        return Some((Markdown::ItalicBold(t), e));
    }
    if let Some((t, e)) = span_at(s, n, i, markdown_only, "**_", "_**") {
        return Some((Markdown::ItalicBold(t), e));
    }
    if let Some((t, e)) = span_at(s, n, i, markdown_only, "__*", "*__") {
        return Some((Markdown::ItalicBold(t), e));
    }
    if let Some((t, e)) = span_at(s, n, i, markdown_only, "__", "__") {
        return Some((Markdown::Bold(t), e));
    }
    if let Some((t, e)) = span_at(s, n, i, markdown_only, "**", "**") {
        return Some((Markdown::Bold(t), e));
    }
    if let Some((t, e)) = span_at(s, n, i, markdown_only, "_", "_") {
        return Some((Markdown::Italic(t), e));
    }
    if let Some((t, e)) = span_at(s, n, i, markdown_only, "*", "*") {
        return Some((Markdown::Italic(t), e));
    }
    if let Some((t, e)) = span_at(s, n, i, markdown_only, "`", "`") {
        return Some((Markdown::Code(t), e));
    }
    if let Some((t, e)) = span_at(s, n, i, markdown_only, "||", "||") {
        return Some((Markdown::Spoiler(t), e));
    }
    None
}

/// A palette color name at position `i`, per `color_name_at`.
fn color_name_at_ex(s: &str, n: usize, i: usize) -> (r: Option<(Color, usize)>)
    requires
        n == s@.len(),
        i <= n,
    ensures
        (r is Some) == (color_name_at(s@, i as int) is Some),
        r matches Some((c, k)) ==> Some((c, k as int)) == color_name_at(s@, i as int),
{
    if tag_at(s, n, i, "white") {
        return Some((Color::White, i + "white".unicode_len()));
    }
    if tag_at(s, n, i, "black") {
        return Some((Color::Black, i + "black".unicode_len()));
    }
    if tag_at(s, n, i, "blue") {
        return Some((Color::Blue, i + "blue".unicode_len()));
    }
    if tag_at(s, n, i, "green") {
        return Some((Color::Green, i + "green".unicode_len()));
    }
    if tag_at(s, n, i, "red") {
        return Some((Color::Red, i + "red".unicode_len()));
    }
    if tag_at(s, n, i, "brown") {
        return Some((Color::Brown, i + "brown".unicode_len()));
    }
    if tag_at(s, n, i, "magenta") {
        return Some((Color::Magenta, i + "magenta".unicode_len()));
    }
    if tag_at(s, n, i, "orange") {
        return Some((Color::Orange, i + "orange".unicode_len()));
    }
    if tag_at(s, n, i, "yellow") {
        return Some((Color::Yellow, i + "yellow".unicode_len()));
    }
    if tag_at(s, n, i, "lightgreen") {
        return Some((Color::LightGreen, i + "lightgreen".unicode_len()));
    }
    if tag_at(s, n, i, "cyan") {
        return Some((Color::Cyan, i + "cyan".unicode_len()));
    }
    if tag_at(s, n, i, "lightcyan") {
        return Some((Color::LightCyan, i + "lightcyan".unicode_len()));
    }
    if tag_at(s, n, i, "lightblue") {
        return Some((Color::LightBlue, i + "lightblue".unicode_len()));
    }
    if tag_at(s, n, i, "pink") {
        return Some((Color::Pink, i + "pink".unicode_len()));
    }
    if tag_at(s, n, i, "grey") {
        return Some((Color::Grey, i + "grey".unicode_len()));
    }
    if tag_at(s, n, i, "lightgrey") {
        return Some((Color::LightGrey, i + "lightgrey".unicode_len()));
    }
    None
}

/// A numeric color code at position `i`, per `color_digit_at`.
fn color_digit_at_ex(s: &str, n: usize, i: usize) -> (r: Option<(Color, usize)>)
    requires
        n == s@.len(),
        i <= n,
    ensures
        (r is Some) == (color_digit_at(s@, i as int) is Some),
        r matches Some((c, k)) ==> Some((c, k as int)) == color_digit_at(s@, i as int),
{
    if i < n {
        let c0 = s.get_char(i);
        let u0 = c0 as u32;
        if 48 <= u0 && u0 <= 57 {
            let d0 = (u0 - 48) as u8;
            if i + 1 < n {
                let c1 = s.get_char(i + 1);
                let u1 = c1 as u32;
                if 48 <= u1 && u1 <= 57 {
                    let code = 10 * d0 + (u1 - 48) as u8;
                    return match Color::code(code) {
                        Some(c) => Some((c, i + 2)),
                        None => None,
                    };
                }
            }
            return match Color::code(d0) {
                Some(c) => Some((c, i + 1)),
                None => None,
            };
        }
    }
    None
}

/// A color value at position `i`, per `color_at`.
fn color_at_ex(s: &str, n: usize, i: usize) -> (r: Option<(Color, usize)>)
    requires
        n == s@.len(),
        i <= n,
    ensures
        (r is Some) == (color_at(s@, i as int) is Some),
        r matches Some((c, k)) ==> Some((c, k as int)) == color_at(s@, i as int),
{
    match color_name_at_ex(s, n, i) {
        Some(r) => Some(r),
        None => color_digit_at_ex(s, n, i),
    }
}

/// An inline dollar directive at position `i`, per `spec_dollar`.
fn dollar_at_ex(s: &str, n: usize, i: usize) -> (r: Option<(Dollar, usize)>)
    requires
        n == s@.len(),
        i <= n,
    ensures
        (r is Some) == (spec_dollar(s@, i as int) is Some),
        r matches Some((d, e)) ==> Some((d, e as int)) == spec_dollar(s@, i as int),
{
    proof {
        reveal_strlit("$b");
        reveal_strlit("$i");
        reveal_strlit("$m");
        reveal_strlit("$r");
        reveal_strlit("$c");
    }
    if tag_at(s, n, i, "$b") {
        return Some((Dollar::Bold, i + 2));
    }
    if tag_at(s, n, i, "$i") {
        return Some((Dollar::Italics, i + 2));
    }
    if tag_at(s, n, i, "$m") {
        return Some((Dollar::Monospace, i + 2));
    }
    if tag_at(s, n, i, "$r") {
        return Some((Dollar::Reset, i + 2));
    }
    if tag_at(s, n, i, "$c") {
        proof {
            lemma_color_at_bounds(s@, i + 2);
        }
        return match color_at_ex(s, n, i + 2) {
            Some((fg, k)) => {
                if k < n && s.get_char(k) == ',' {
                    match color_at_ex(s, n, k + 1) {
                        Some((bg, m)) => Some((Dollar::StartColor(fg, Some(bg)), m)),
                        None => Some((Dollar::StartColor(fg, None), k)),
                    }
                } else {
                    Some((Dollar::StartColor(fg, None), k))
                }
            },
            None => Some((Dollar::EndColor, i + 2)),
        };
    }
    None
}

/// The token at position `i` and the position after it, per
/// `spec_token`.
fn token_at(s: &str, n: usize, i: usize, markdown_only: bool) -> (r: (Token, usize))
    requires
        n == s@.len(),
        i < n,
    ensures
        r.0.model() == spec_token(s@, i as int, markdown_only).0,
        r.1 == spec_token(s@, i as int, markdown_only).1,
        i < r.1 <= n,
{
    proof {
        lemma_token_bounds(s@, i as int, markdown_only);
    }
    match plain_at(s, n, i, markdown_only) {
        Some((t, e)) => (Token::Plain(t), e),
        None => match markdown_at(s, n, i, markdown_only) {
            Some((m, e)) => (Token::Markdown(m), e),
            None => {
                if !markdown_only {
                    match dollar_at_ex(s, n, i) {
                        Some((d, e)) => (Token::Dollar(d), e),
                        None => (Token::Unknown(s.get_char(i)), i + 1),
                    }
                } else {
                    (Token::Unknown(s.get_char(i)), i + 1)
                }
            },
        },
    }
}

/// Lexes the whole input into tokens. The grammar always makes
/// progress, so lexing succeeds on every input; the `Option` mirrors
/// the transcoder's fail-open interface, under which a caller must
/// fall back to the raw input when no tokens come back.
pub fn lex(s: &str, markdown_only: bool) -> (r: Option<Vec<Token>>)
    ensures
        r matches Some(v) && tokens_model(v@) == spec_lex(s@, 0, markdown_only),
{
    let n = s.unicode_len();
    let mut tokens: Vec<Token> = Vec::new();
    let mut i: usize = 0;
    proof {
        assert(tokens_model(tokens@) =~= Seq::<TokenModel>::empty());
        assert(tokens_model(tokens@) + spec_lex(s@, 0, markdown_only) =~= spec_lex(
            s@,
            0,
            markdown_only,
        ));
    }
    while i < n
        invariant
            n == s@.len(),
            i <= n,
            spec_lex(s@, 0, markdown_only) == tokens_model(tokens@) + spec_lex(
                s@,
                i as int,
                markdown_only,
            ),
        decreases n - i,
    {
        let ghost prev = tokens@;
        let (t, j) = token_at(s, n, i, markdown_only);
        tokens.push(t);
        proof {
            assert(tokens_model(tokens@) =~= tokens_model(prev) + seq![t.model()]);
            assert(tokens_model(tokens@) + spec_lex(s@, j as int, markdown_only) =~= tokens_model(
                prev,
            ) + (seq![spec_token(s@, i as int, markdown_only).0] + spec_lex(
                s@,
                spec_token(s@, i as int, markdown_only).1,
                markdown_only,
            )));
        }
        i = j;
    }
    proof {
        assert(tokens_model(tokens@) + spec_lex(s@, i as int, markdown_only) =~= tokens_model(
            tokens@,
        ));
    }
    Some(tokens)
}

// ------------------------------------------------------------------
// The encoder: tokens to wire text.
// ------------------------------------------------------------------

/// The wire rendering of a markdown span: the inner text wrapped in the
/// span's modifier bytes; a spoiler becomes a black-on-black color run.
pub open spec fn spec_encode_markdown(m: MarkdownModel) -> Seq<char> {
    let b = Modifier::Bold.spec_char();
    let it = Modifier::Italics.spec_char();
    let mn = Modifier::Monospace.spec_char();
    let c = Modifier::Color.spec_char();
    let black = Color::Black.spec_digits();
    match m {
        MarkdownModel::Bold(t) => seq![b] + t + seq![b],
        MarkdownModel::Italic(t) => seq![it] + t + seq![it],
        MarkdownModel::ItalicBold(t) => seq![b, it] + t + seq![b, it],
        MarkdownModel::Code(t) => seq![mn] + t + seq![mn],
        MarkdownModel::Spoiler(t) => seq![c] + black + seq![','] + black + t + seq![c],
    }
}

/// The wire rendering of a dollar directive: its single modifier byte,
/// or the color byte with the digit string(s) of a start-color.
pub open spec fn spec_encode_dollar(d: Dollar) -> Seq<char> {
    match d {
        Dollar::Bold => seq![Modifier::Bold.spec_char()],
        Dollar::Italics => seq![Modifier::Italics.spec_char()],
        Dollar::Monospace => seq![Modifier::Monospace.spec_char()],
        Dollar::Reset => seq![Modifier::Reset.spec_char()],
        Dollar::StartColor(fg, bg) => seq![Modifier::Color.spec_char()] + fg.spec_digits() + (
        match bg {
            Some(b) => seq![','] + b.spec_digits(),
            None => Seq::empty(),
        }),
        Dollar::EndColor => seq![Modifier::Color.spec_char()],
    }
}

/// The wire rendering of one token.
pub open spec fn spec_encode_token(t: TokenModel) -> Seq<char> {
    match t {
        TokenModel::Plain(p) => p,
        TokenModel::Markdown(m) => spec_encode_markdown(m),
        TokenModel::Dollar(d) => spec_encode_dollar(d),
        TokenModel::Unknown(c) => seq![c],
    }
}

/// The wire rendering of a token sequence, in order.
pub open spec fn spec_encode_tokens(ts: Seq<TokenModel>) -> Seq<char>
    decreases ts.len(),
{
    if ts.len() == 0 {
        Seq::empty()
    } else {
        spec_encode_token(ts[0]) + spec_encode_tokens(ts.drop_first())
    }
}

/// What `encode` returns: the rendering of the token sequence of the
/// input.
pub open spec fn spec_encode(s: Seq<char>, markdown_only: bool) -> Seq<char> {
    spec_encode_tokens(spec_lex(s, 0, markdown_only))
}

/// Appends the rendering of a markdown span to `out`.
fn render_markdown(out: &mut String, m: &Markdown)
    ensures
        final(out)@ == old(out)@ + spec_encode_markdown(m.model()),
{
    match m {
        Markdown::Bold(t) => {
            let b = Modifier::Bold.char();
            push_char(out, b);
            out.append(t.as_str());
            push_char(out, b);
            assert(final(out)@ =~= old(out)@ + spec_encode_markdown(m.model()));
        },
        Markdown::Italic(t) => {
            let it = Modifier::Italics.char();
            push_char(out, it);
            out.append(t.as_str());
            push_char(out, it);
            assert(final(out)@ =~= old(out)@ + spec_encode_markdown(m.model()));
        },
        Markdown::ItalicBold(t) => {
            let b = Modifier::Bold.char();
            let it = Modifier::Italics.char();
            push_char(out, b);
            push_char(out, it);
            out.append(t.as_str());
            push_char(out, b);
            push_char(out, it);
            assert(final(out)@ =~= old(out)@ + spec_encode_markdown(m.model()));
        },
        Markdown::Code(t) => {
            let mn = Modifier::Monospace.char();
            push_char(out, mn);
            out.append(t.as_str());
            push_char(out, mn);
            assert(final(out)@ =~= old(out)@ + spec_encode_markdown(m.model()));
        },
        Markdown::Spoiler(t) => {
            let c = Modifier::Color.char();
            push_char(out, c);
            Color::Black.push_digits(out);
            push_char(out, ',');
            Color::Black.push_digits(out);
            out.append(t.as_str());
            push_char(out, c);
            assert(final(out)@ =~= old(out)@ + spec_encode_markdown(m.model()));
        },
    }
}

/// Appends the rendering of a dollar directive to `out`.
fn render_dollar(out: &mut String, d: &Dollar)
    ensures
        final(out)@ == old(out)@ + spec_encode_dollar(*d),
{
    match d {
        Dollar::Bold => {
            push_char(out, Modifier::Bold.char());
            assert(final(out)@ =~= old(out)@ + spec_encode_dollar(*d));
        },
        Dollar::Italics => {
            push_char(out, Modifier::Italics.char());
            assert(final(out)@ =~= old(out)@ + spec_encode_dollar(*d));
        },
        Dollar::Monospace => {
            push_char(out, Modifier::Monospace.char());
            assert(final(out)@ =~= old(out)@ + spec_encode_dollar(*d));
        },
        Dollar::Reset => {
            push_char(out, Modifier::Reset.char());
            assert(final(out)@ =~= old(out)@ + spec_encode_dollar(*d));
        },
        Dollar::StartColor(fg, bg) => {
            push_char(out, Modifier::Color.char());
            fg.push_digits(out);
            match bg {
                Some(b) => {
                    push_char(out, ',');
                    b.push_digits(out);
                },
                None => {},
            }
            assert(final(out)@ =~= old(out)@ + spec_encode_dollar(*d));
        },
        Dollar::EndColor => {
            push_char(out, Modifier::Color.char());
            assert(final(out)@ =~= old(out)@ + spec_encode_dollar(*d));
        },
    }
}

/// Appends the rendering of one token to `out`.
fn render_token(out: &mut String, t: &Token)
    ensures
        final(out)@ == old(out)@ + spec_encode_token(t.model()),
{
    match t {
        Token::Plain(p) => {
            out.append(p.as_str());
        },
        Token::Markdown(m) => {
            render_markdown(out, m);
        },
        Token::Dollar(d) => {
            render_dollar(out, d);
        },
        Token::Unknown(c) => {
            push_char(out, *c);
            assert(final(out)@ =~= old(out)@ + spec_encode_token(t.model()));
        },
    }
}

/// Renders a token sequence into wire text, in order.
pub fn render_tokens(tokens: &Vec<Token>) -> (r: String)
    ensures
        r@ == spec_encode_tokens(tokens_model(tokens@)),
{
    let ghost models = tokens_model(tokens@);
    let mut out = String::new();
    let mut idx: usize = 0;
    proof {
        assert(out@ + spec_encode_tokens(models.skip(0)) =~= spec_encode_tokens(models)) by {
            assert(models.skip(0) =~= models);
        }
    }
    while idx < tokens.len()
        invariant
            models == tokens_model(tokens@),
            idx <= tokens@.len(),
            spec_encode_tokens(models) == out@ + spec_encode_tokens(models.skip(idx as int)),
        decreases tokens@.len() - idx,
    {
        let ghost rest = models.skip(idx as int);
        proof {
            assert(rest.len() > 0);
            assert(rest[0] == tokens@[idx as int].model());
            assert(rest.drop_first() =~= models.skip(idx as int + 1));
        }
        let ghost before = out@;
        render_token(&mut out, &tokens[idx]);
        proof {
            assert(out@ + spec_encode_tokens(models.skip(idx as int + 1)) =~= before
                + spec_encode_tokens(rest));
        }
        idx += 1;
    }
    proof {
        assert(spec_encode_tokens(models.skip(models.len() as int)) =~= Seq::<char>::empty());
        assert(out@ + Seq::<char>::empty() =~= out@);
    }
    out
}

/// Converts markup to wire text: lexes the input and renders the
/// tokens. If the lexer were ever to return nothing, the input would
/// come back unchanged — the transcoder fails open and never emits a
/// half-encoded result.
pub fn encode(text: &str, markdown_only: bool) -> (r: String)
    ensures
        r@ == spec_encode(text@, markdown_only),
{
    match lex(text, markdown_only) {
        Some(tokens) => render_tokens(&tokens),
        None => text.to_owned(),
    }
}

// ------------------------------------------------------------------
// Laws of the transcoder.
// ------------------------------------------------------------------

/// On an input with no formatting meaning, the whole input is one
/// maximal plain run that collapses to itself.
proof fn lemma_plain_run_all(s: Seq<char>, i: int)
    requires
        0 <= i <= s.len(),
        forall|k: int| 0 <= k < s.len() ==> !is_delim(#[trigger] s[k]) && s[k] != '$' && s[k]
            != '\\',
    ensures
        plain_end(s, i, false) == s.len(),
        plain_text(s, i, false) == s.skip(i),
    decreases s.len() - i,
{
    if i < s.len() {
        assert(esc_len(s, i, false) == 1);
        lemma_plain_run_all(s, i + 1);
        assert(plain_text(s, i, false) =~= s.skip(i)) by {
            assert(seq![s[i]] + s.skip(i + 1) =~= s.skip(i));
        }
    } else {
        assert(plain_text(s, i, false) =~= s.skip(i));
    }
}

/// Idempotence of plain text: a string holding none of the reserved
/// delimiter characters, no backslash and no dollar sign is encoded to
/// exactly itself.
pub proof fn lemma_plain_identity(s: Seq<char>)
    requires
        forall|k: int| 0 <= k < s.len() ==> !is_delim(#[trigger] s[k]) && s[k] != '$' && s[k]
            != '\\',
    ensures
        spec_encode(s, false) == s,
{
    if s.len() == 0 {
        assert(spec_encode(s, false) =~= s);
    } else {
        lemma_plain_run_all(s, 0);
        assert(esc_len(s, 0, false) == 1);
        let t = spec_token(s, 0, false);
        assert(s.skip(0) =~= s);
        assert(t.0 == TokenModel::Plain(s));
        assert(t.1 == s.len());
        let toks = spec_lex(s, 0, false);
        assert(toks == seq![t.0] + spec_lex(s, s.len() as int, false));
        assert(toks =~= seq![TokenModel::Plain(s)]);
        assert(spec_encode_tokens(seq![TokenModel::Plain(s)]) =~= s) by {
            assert(seq![TokenModel::Plain(s)][0] == TokenModel::Plain(s));
            assert(seq![TokenModel::Plain(s)].drop_first() =~= Seq::<TokenModel>::empty());
            assert(spec_encode_tokens(Seq::<TokenModel>::empty()) == Seq::<char>::empty());
            assert(s + Seq::<char>::empty() =~= s);
        }
        assert(spec_encode(s, false) == spec_encode_tokens(toks));
    }
}

proof fn lemma_no_dollar_from(s: Seq<char>, i: int)
    requires
        0 <= i <= s.len(),
    ensures
        forall|k: int|
            0 <= k < spec_lex(s, i, true).len() ==> !(#[trigger] spec_lex(s, i, true)[k]
                is Dollar),
    decreases s.len() - i,
{
    if i < s.len() {
        lemma_token_bounds(s, i, true);
        let t0 = spec_token(s, i, true).0;
        let j = spec_token(s, i, true).1;
        lemma_no_dollar_from(s, j);
        assert(!(t0 is Dollar));
        assert forall|k: int| 0 <= k < spec_lex(s, i, true).len() implies !(#[trigger] spec_lex(
            s,
            i,
            true,
        )[k] is Dollar) by {
            if k == 0 {
                assert(spec_lex(s, i, true)[0] == t0);
            } else {
                assert(spec_lex(s, i, true)[k] == spec_lex(s, j, true)[k - 1]);
            }
        }
    }
}

/// Mode suppression: with `markdown_only` set, the lexer never
/// produces a directive token on any input, so no dollar sequence can
/// make the encoder emit a modifier byte.
pub proof fn lemma_markdown_only_no_dollar(s: Seq<char>)
    ensures
        forall|k: int|
            0 <= k < spec_lex(s, 0, true).len() ==> !(#[trigger] spec_lex(s, 0, true)[k]
                is Dollar),
{
    lemma_no_dollar_from(s, 0);
}

} // verus!

