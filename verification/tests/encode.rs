use halloy::encode::encode;

const B: char = '\u{02}';
const I: char = '\u{1d}';
const M: char = '\u{11}';
const C: char = '\u{03}';
const R: char = '\u{0f}';

#[test]
fn internal_format() {
    let _ = encode("hello there friend!!", false);
    let _ = encode("hello there _friend_!!", false);
    let _ = encode("hello there __friend__!!", false);
    let _ = encode("hello there ___friend___!!", false);
    let _ = encode("hello there **_\\_fri\\_end\\__**!!", false);
    let _ = encode("some code `let x = 0;`", false);
    let _ = encode("spoiler --> ||super secret||", false);
    let _ = encode(
        "$c1,0black on white $c2now blue on white$r$b BOLD $i BOLD AND ITALIC$r $ccode yo",
        false,
    );
}

#[test]
fn plain_text_is_unchanged() {
    assert_eq!(encode("hello there friend!!", false), "hello there friend!!");
    assert_eq!(encode("", false), "");
    assert_eq!(encode("", true), "");
}

#[test]
fn escapes_collapse() {
    assert_eq!(encode("\\*not bold\\*", false), "*not bold*");
    assert_eq!(encode("\\_a\\_ \\`b\\` \\|c\\|", false), "_a_ `b` |c|");
    assert_eq!(encode("\\$b", false), "$b");
    assert_eq!(encode("$$b", false), "$b");
}

#[test]
fn bold_span() {
    assert_eq!(encode("**hi**", false), format!("{B}hi{B}"));
    assert_eq!(encode("__hi__", false), format!("{B}hi{B}"));
}

#[test]
fn italic_span() {
    assert_eq!(encode("hello there _friend_!!", false), format!("hello there {I}friend{I}!!"));
    assert_eq!(encode("*friend*", false), format!("{I}friend{I}"));
}

#[test]
fn italic_bold_spans() {
    assert_eq!(encode("___x___", false), format!("{B}{I}x{B}{I}"));
    assert_eq!(encode("***x***", false), format!("{B}{I}x{B}{I}"));
    assert_eq!(encode("**_x_**", false), format!("{B}{I}x{B}{I}"));
    assert_eq!(encode("__*x*__", false), format!("{B}{I}x{B}{I}"));
    assert_eq!(
        encode("hello there **_\\_fri\\_end\\__**!!", false),
        format!("hello there {B}{I}_fri_end_{B}{I}!!"),
    );
}

#[test]
fn code_span() {
    assert_eq!(encode("some code `let x = 0;`", false), format!("some code {M}let x = 0;{M}"));
}

#[test]
fn spoiler_span() {
    assert_eq!(encode("||secret||", false), format!("{C}1,1secret{C}"));
    assert_eq!(
        encode("spoiler --> ||super secret||", false),
        format!("spoiler --> {C}1,1super secret{C}"),
    );
}

#[test]
fn unterminated_span_stays_literal() {
    assert_eq!(encode("**abc", false), "**abc");
    assert_eq!(encode("`x", false), "`x");
    assert_eq!(encode("||x", false), "||x");
    assert_eq!(encode("****", false), "****");
}

#[test]
fn dollar_directives() {
    assert_eq!(encode("$ba", false), format!("{B}a"));
    assert_eq!(encode("$ia", false), format!("{I}a"));
    assert_eq!(encode("$ma", false), format!("{M}a"));
    assert_eq!(encode("$ra", false), format!("{R}a"));
}

#[test]
fn color_directive_round_trip() {
    assert_eq!(encode("$c4,1hello$c", false), format!("{C}4,1hello{C}"));
}

#[test]
fn color_names_resolve() {
    assert_eq!(encode("$cred,bluex$c", false), format!("{C}4,2x{C}"));
    assert_eq!(encode("$clightgreen hello", false), format!("{C}9 hello"));
}

#[test]
fn color_without_background() {
    assert_eq!(encode("$c13pink", false), format!("{C}13pink"));
    // a comma not followed by a valid color stays literal
    assert_eq!(encode("$c4,xhello", false), format!("{C}4,xhello"));
}

#[test]
fn end_color_disambiguation() {
    assert_eq!(encode("$cxyz", false), format!("{C}xyz"));
    // a two-digit run that is no palette code is not retried as one digit
    assert_eq!(encode("$c16", false), format!("{C}16"));
}

#[test]
fn mode_suppression() {
    assert_eq!(encode("$b", true), "$b");
    assert_eq!(encode("x$by", true), "x$by");
    assert_eq!(encode("$c4,1hello$c", true), "$c4,1hello$c");
    // markdown still applies with directives suppressed
    assert_eq!(encode("**hi** $b", true), format!("{B}hi{B} $b"));
    // escapes of the dollar sign are suppressed too
    assert_eq!(encode("$$b", true), "$$b");
}

#[test]
fn lexing_always_succeeds_and_renders_like_encode() {
    let input = "**hi** $b \\*x\\* ||s|| $c4,1t$c plain";
    let tokens = halloy::encode::lex(input, false).expect("the lexer is total");
    assert!(!tokens.is_empty());
    assert_eq!(halloy::encode::render_tokens(&tokens), encode(input, false));
    let suppressed = halloy::encode::lex(input, true).expect("the lexer is total");
    assert_eq!(halloy::encode::render_tokens(&suppressed), encode(input, true));
}

#[test]
fn unknown_characters_pass_through() {
    assert_eq!(encode("$x", false), "$x");
    assert_eq!(encode("_", false), "_");
    assert_eq!(encode("a * b", false), "a * b");
}

#[test]
fn non_ascii_input_passes_through() {
    assert_eq!(encode("héllo wörld ✓", false), "héllo wörld ✓");
    assert_eq!(encode("**héllo…**", false), format!("{B}héllo…{B}"));
    assert_eq!(encode("$c4,1héllo$c", false), format!("{C}4,1héllo{C}"));
}
