use vstd::prelude::*;

verus! {

/// One gallery entry: a scene with its raw and final image paths, relative
/// to the gallery page.
#[derive(Clone, Debug)]
pub struct PreviewItem {
    pub scene_id: String,
    pub raw_rel: String,
    pub final_rel: String,
}

// ---------------------------------------------------------------------------
// HTML escaping.
// ---------------------------------------------------------------------------

/// The escape of one character: the five HTML-special characters become
/// entities, everything else stands as it is.
pub open spec fn spec_escape_char(c: char) -> Seq<char> {
    if c == '&' {
        "&amp;"@
    } else if c == '<' {
        "&lt;"@
    } else if c == '>' {
        "&gt;"@
    } else if c == '"' {
        "&quot;"@
    } else if c == '\'' {
        "&#39;"@
    } else {
        seq![c]
    }
}

/// The escape of a whole string, character by character.
pub open spec fn spec_escape(s: Seq<char>) -> Seq<char>
    decreases s.len(),
{
    if s.len() == 0 {
        Seq::<char>::empty()
    } else {
        spec_escape_char(s[0]) + spec_escape(s.drop_first())
    }
}

proof fn lemma_escape_snoc(s: Seq<char>, c: char)
    ensures
        spec_escape(s.push(c)) == spec_escape(s) + spec_escape_char(c),
    decreases s.len(),
{
    if s.len() == 0 {
        assert(s.push(c)[0] == c);
        assert(s.push(c).drop_first() =~= Seq::<char>::empty());
        assert(spec_escape(s.push(c)) == spec_escape_char(c) + spec_escape(
            s.push(c).drop_first(),
        ));
        assert(spec_escape(s.push(c).drop_first()) == Seq::<char>::empty());
        assert(spec_escape_char(c) + Seq::<char>::empty() =~= spec_escape_char(c));
        assert(spec_escape(s) == Seq::<char>::empty());
        assert(spec_escape(s) + spec_escape_char(c) =~= spec_escape_char(c));
        assert(spec_escape(s.push(c)) =~= spec_escape(s) + spec_escape_char(c));
    } else {
        assert(s.push(c).len() > 0);
        assert(s.push(c)[0] == s[0]);
        assert(s.push(c).drop_first() =~= s.drop_first().push(c));
        assert(spec_escape(s.push(c)) == spec_escape_char(s[0]) + spec_escape(
            s.drop_first().push(c),
        ));
        lemma_escape_snoc(s.drop_first(), c);
        assert(spec_escape(s) == spec_escape_char(s[0]) + spec_escape(s.drop_first()));
        assert(spec_escape_char(s[0]) + (spec_escape(s.drop_first()) + spec_escape_char(c)) =~= (
        spec_escape_char(s[0]) + spec_escape(s.drop_first())) + spec_escape_char(c));
        assert(spec_escape(s.push(c)) =~= spec_escape(s) + spec_escape_char(c));
    }
}

/// Escapes the five HTML-special characters of a string.
pub fn html_escape(input: &str) -> (r: String)
    ensures
        r@ == spec_escape(input@),
{
    let n = input.unicode_len();
    let mut out = String::new();
    let mut i: usize = 0;
    while i < n
        invariant
            n == input@.len(),
            i <= n,
            out@ == spec_escape(input@.subrange(0, i as int)),
        decreases n - i,
    {
        let c = input.get_char(i);
        if c == '&' {
            out.append("&amp;");
        } else if c == '<' {
            out.append("&lt;");
        } else if c == '>' {
            out.append("&gt;");
        } else if c == '"' {
            out.append("&quot;");
        } else if c == '\'' {
            out.append("&#39;");
        } else {
            let piece = input.substring_char(i, i + 1);
            proof {
                assert(piece@ =~= seq![input@[i as int]]);
            }
            out.append(piece);
        }
        proof {
            assert(input@.subrange(0, i + 1) =~= input@.subrange(0, i as int).push(
                input@[i as int],
            ));
            lemma_escape_snoc(input@.subrange(0, i as int), input@[i as int]);
        }
        i = i + 1;
    }
    proof {
        assert(input@.subrange(0, n as int) =~= input@);
    }
    out
}

// ---------------------------------------------------------------------------
// The gallery page.
// ---------------------------------------------------------------------------

/// One gallery card: the scene heading and its two images, with every
/// configured string HTML-escaped.
pub open spec fn spec_card(item: PreviewItem) -> Seq<char> {
    "<section class=\"card\">\n  <h2>"@ + spec_escape(item.scene_id@)
        + "</h2>\n  <div class=\"grid\">\n    <figure><figcaption>Raw</figcaption><img src=\""@
        + spec_escape(item.raw_rel@) + "\" alt=\"raw "@ + spec_escape(item.scene_id@)
        + "\" loading=\"lazy\"/></figure>\n    <figure><figcaption>Final</figcaption><img src=\""@
        + spec_escape(item.final_rel@) + "\" alt=\"final "@ + spec_escape(item.scene_id@)
        + "\" loading=\"lazy\"/></figure>\n  </div>\n</section>\n"@
}

/// The first `n` cards, in order.
pub open spec fn spec_cards(items: Seq<PreviewItem>, n: int) -> Seq<char>
    decreases n,
{
    if n <= 0 {
        Seq::<char>::empty()
    } else {
        spec_cards(items, n - 1) + spec_card(items[n - 1])
    }
}

/// The page head: document metadata and the gallery stylesheet.
pub open spec fn spec_page_head() -> Seq<char> {
    "<!doctype html>\n<html lang=\"en\">\n<head>\n  <meta charset=\"utf-8\" />\n  <meta name=\"viewport\" content=\"width=device-width, initial-scale=1\" />\n  <title>Screenforge Preview</title>\n  <style>\n    body { margin: 0; padding: 24px; font-family: ui-sans-serif, sans-serif; background: #0c111b; color: #e4ebf6; }\n    h1 { margin: 0 0 24px 0; font-size: 28px; }\n    .card { margin-bottom: 28px; background: #11192a; border: 1px solid #263449; border-radius: 12px; padding: 16px; }\n    .card h2 { margin: 0 0 12px 0; font-size: 16px; letter-spacing: 0.04em; text-transform: uppercase; color: #bfd0ea; }\n    .grid { display: grid; grid-template-columns: repeat(auto-fit, minmax(260px, 1fr)); gap: 16px; }\n    figure { margin: 0; background: #0c111b; border-radius: 10px; padding: 10px; border: 1px solid #213046; }\n    figcaption { margin-bottom: 10px; font-size: 12px; opacity: 0.8; text-transform: uppercase; letter-spacing: 0.08em; }\n    img { width: 100%; height: auto; border-radius: 8px; display: block; background: #070b13; }\n  </style>\n</head>\n<body>\n  <h1>Screenforge Preview</h1>\n  "@
}

/// The page tail.
pub open spec fn spec_page_tail() -> Seq<char> {
    "\n</body>\n</html>"@
}

/// The whole gallery page.
pub open spec fn spec_index_html(items: Seq<PreviewItem>) -> Seq<char> {
    spec_page_head() + spec_cards(items, items.len() as int) + spec_page_tail()
}

fn card_html(item: &PreviewItem) -> (r: String)
    ensures
        r@ == spec_card(*item),
{
    let mut s = "<section class=\"card\">\n  <h2>".to_owned();
    s.append(html_escape(item.scene_id.as_str()).as_str());
    s.append(
        "</h2>\n  <div class=\"grid\">\n    <figure><figcaption>Raw</figcaption><img src=\"",
    );
    s.append(html_escape(item.raw_rel.as_str()).as_str());
    s.append("\" alt=\"raw ");
    s.append(html_escape(item.scene_id.as_str()).as_str());
    s.append(
        "\" loading=\"lazy\"/></figure>\n    <figure><figcaption>Final</figcaption><img src=\"",
    );
    s.append(html_escape(item.final_rel.as_str()).as_str());
    s.append("\" alt=\"final ");
    s.append(html_escape(item.scene_id.as_str()).as_str());
    s.append("\" loading=\"lazy\"/></figure>\n  </div>\n</section>\n");
    proof {
        assert(s@ =~= spec_card(*item));
    }
    s
}

/// Renders the gallery page for the given items: a fixed head and tail
/// around one card per scene, with every scene-supplied string escaped.
pub fn render_index_html(items: &Vec<PreviewItem>) -> (r: String)
    ensures
        r@ == spec_index_html(items@),
{
    let mut s =
        "<!doctype html>\n<html lang=\"en\">\n<head>\n  <meta charset=\"utf-8\" />\n  <meta name=\"viewport\" content=\"width=device-width, initial-scale=1\" />\n  <title>Screenforge Preview</title>\n  <style>\n    body { margin: 0; padding: 24px; font-family: ui-sans-serif, sans-serif; background: #0c111b; color: #e4ebf6; }\n    h1 { margin: 0 0 24px 0; font-size: 28px; }\n    .card { margin-bottom: 28px; background: #11192a; border: 1px solid #263449; border-radius: 12px; padding: 16px; }\n    .card h2 { margin: 0 0 12px 0; font-size: 16px; letter-spacing: 0.04em; text-transform: uppercase; color: #bfd0ea; }\n    .grid { display: grid; grid-template-columns: repeat(auto-fit, minmax(260px, 1fr)); gap: 16px; }\n    figure { margin: 0; background: #0c111b; border-radius: 10px; padding: 10px; border: 1px solid #213046; }\n    figcaption { margin-bottom: 10px; font-size: 12px; opacity: 0.8; text-transform: uppercase; letter-spacing: 0.08em; }\n    img { width: 100%; height: auto; border-radius: 8px; display: block; background: #070b13; }\n  </style>\n</head>\n<body>\n  <h1>Screenforge Preview</h1>\n  ".to_owned();
    let mut i: usize = 0;
    while i < items.len()
        invariant
            i <= items@.len(),
            s@ == spec_page_head() + spec_cards(items@, i as int),
        decreases items@.len() - i,
    {
        let card = card_html(&items[i]);
        s.append(card.as_str());
        proof {
            assert((spec_page_head() + spec_cards(items@, i as int)) + spec_card(items@[i as int])
                =~= spec_page_head() + (spec_cards(items@, i as int) + spec_card(
                items@[i as int],
            )));
        }
        i = i + 1;
    }
    s.append("\n</body>\n</html>");
    proof {
        assert((spec_page_head() + spec_cards(items@, items@.len() as int)) + spec_page_tail()
            =~= spec_index_html(items@));
    }
    s
}

} // verus!
