//! The HTML minifier: collapsing, comments, quotes, verbatim elements,
//! idempotence on concrete documents.

use rawssg::minify::minify_text;

fn mini(s: &str) -> String {
    minify_text(s, true)
}

#[test]
fn disabled_minification_is_a_no_op() {
    let html = "<p>  hello   world  </p>\n\n";
    assert_eq!(minify_text(html, false), html);
}

#[test]
fn whitespace_collapses_to_single_spaces() {
    assert_eq!(mini("<p>hello    world</p>"), "<p>hello world</p>");
    assert_eq!(mini("a\n\n\t  b"), "a b");
}

#[test]
fn document_is_trimmed() {
    assert_eq!(mini("   <p>x</p>   "), "<p>x</p>");
    assert_eq!(mini(""), "");
    assert_eq!(mini("   \n\t "), "");
}

#[test]
fn comments_are_dropped_entirely() {
    assert_eq!(mini("a<!-- a comment -->b"), "ab");
    assert_eq!(mini("a<!-- unterminated"), "a");
    assert_eq!(mini("<div><!--x--></div>"), "<div></div>");
}

#[test]
fn whitespace_inside_attribute_quotes_is_preserved() {
    assert_eq!(
        mini("<a title=\"two  spaces\">x</a>"),
        "<a title=\"two  spaces\">x</a>"
    );
    assert_eq!(
        mini("<a title='s  q'>x</a>"),
        "<a title='s  q'>x</a>"
    );
}

#[test]
fn whitespace_between_attributes_collapses() {
    assert_eq!(
        mini("<a   href=\"x\"    class=\"y\">z</a>"),
        "<a href=\"x\" class=\"y\">z</a>"
    );
}

#[test]
fn pre_content_is_untouched() {
    let html = "<pre>  keep\n\tall   of\n  this  </pre>";
    assert_eq!(mini(html), html);
}

#[test]
fn script_and_style_content_is_untouched() {
    let s = "<script>\nlet a = 1;   let b = 2;\n</script>";
    assert_eq!(mini(s), s);
    let c = "<style>\n  .a   {  color: red; }\n</style>";
    assert_eq!(mini(c), c);
}

#[test]
fn verbatim_tag_names_match_case_insensitively() {
    let html = "<PRE>  a   b </PRE>";
    assert_eq!(mini(html), html);
}

#[test]
fn comment_inside_pre_is_preserved() {
    let html = "<pre><!-- not a comment here --></pre>";
    assert_eq!(mini(html), html);
}

#[test]
fn minify_is_idempotent_on_documents() {
    let cases = [
        "",
        "   ",
        "plain   text   here",
        "<p>hello    world</p>",
        "<div>\n  <span>a</span>\n  <span>b</span>\n</div>",
        "a<!-- c -->b  c",
        "<pre>  keep\n this </pre> outside   run",
        "<a title=\"two  spaces\"  href='x'>t</a>",
        "<script>let a=\"<!--\";</script> tail   text",
        "<PRE> X </PRE><p>  y   z </p>",
        "text <pr<!--z-->e> odd <div>  q </div>",
        "<style>.a{}</style><!--drop--><b>  v </b>",
    ];
    for case in cases {
        let once = mini(case);
        let twice = mini(&once);
        assert_eq!(twice, once, "not idempotent on {:?}", case);
    }
}

#[test]
fn output_is_never_longer_than_input() {
    let cases = [
        "<p>hello    world</p>",
        "a<!-- a comment -->b",
        "<pre> keep </pre>",
        "   trimmed   ",
    ];
    for case in cases {
        assert!(mini(case).len() <= case.len());
    }
}
