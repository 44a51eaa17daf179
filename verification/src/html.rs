//! Building HTML fragments: escaping, and the controls of the filter forms.
use vstd::prelude::*;

use crate::text;

verus! {

broadcast use vstd::string::group_string_axioms;

/// A character as it stands in HTML text or in a quoted attribute.
pub open spec fn escaped_char(c: char) -> Seq<char> {
    if c == '<' {
        "&#60;"@
    } else if c == '>' {
        "&#62;"@
    } else if c == '&' {
        "&#38;"@
    } else if c == '"' {
        "&#34;"@
    } else if c == '\'' {
        "&#39;"@
    } else {
        seq![c]
    }
}

/// A text as it stands in HTML text or in a quoted attribute.
pub open spec fn escaped(s: Seq<char>) -> Seq<char>
    decreases s.len(),
{
    if s.len() == 0 {
        Seq::empty()
    } else {
        escaped(s.drop_last()) + escaped_char(s.last())
    }
}

/// A text as it stands in HTML text or in a quoted attribute.
pub fn escape(s: &str) -> (r: String)
    ensures
        r@ == escaped(s@),
{
    let mut out = String::new();
    assert(out@ =~= escaped(s@.take(0)));
    for c in it: s.chars()
        invariant
            it.seq() == s@,
            out@ == escaped(s@.take(it.index() as int)),
    {
        let ghost before = out@;
        proof {
            let next = s@.take(it.index() + 1);
            assert(next.drop_last() =~= s@.take(it.index() as int));
            assert(next.last() == c);
        }
        if c == '<' {
            out.append("&#60;");
        } else if c == '>' {
            out.append("&#62;");
        } else if c == '&' {
            out.append("&#38;");
        } else if c == '"' {
            out.append("&#34;");
        } else if c == '\'' {
            out.append("&#39;");
        } else {
            out.push(c);
            assert(out@ =~= before + seq![c]);
        }
    }
    assert(s@.take(s@.len() as int) =~= s@);
    out
}

/// How a control of a filter form loads a view.
pub open spec fn wiring(view: Seq<char>, trigger: Seq<char>) -> Seq<char> {
    " hx-get=\"/api/views/"@ + view + "\" hx-include=\"closest form\" hx-target=\"#view\" hx-trigger=\""@
        + trigger + "\""@
}

/// How a control of a filter form loads a view.
fn wire(view: &str, trigger: &str) -> (r: String)
    ensures
        r@ == wiring(view@, trigger@),
{
    " hx-get=\"/api/views/".to_owned().concat(view).concat(
        "\" hx-include=\"closest form\" hx-target=\"#view\" hx-trigger=\"",
    ).concat(trigger).concat("\"")
}

/// One option of a selector.
pub open spec fn option_tag(value: Seq<char>, label: Seq<char>, current: Seq<char>) -> Seq<char> {
    "<option value=\""@ + escaped(value) + (if value == current {
        "\" selected>"@
    } else {
        "\">"@
    }) + escaped(label) + "</option>"@
}

/// The options of a selector, in order.
pub open spec fn option_tags(options: Seq<(Seq<char>, Seq<char>)>, current: Seq<char>) -> Seq<char>
    decreases options.len(),
{
    if options.len() == 0 {
        Seq::empty()
    } else {
        option_tags(options.drop_last(), current) + option_tag(
            options.last().0,
            options.last().1,
            current,
        )
    }
}

/// A selector that reloads a view when it changes.
pub open spec fn select_tag(
    view: Seq<char>,
    name: Seq<char>,
    options: Seq<(Seq<char>, Seq<char>)>,
    current: Seq<char>,
) -> Seq<char> {
    "<select name=\""@ + name + "\""@ + wiring(view, "change"@) + ">"@ + option_tags(
        options,
        current,
    ) + "</select>"@
}

/// A selector that reloads a view when it changes.
pub fn select(view: &str, name: &str, options: &Vec<(String, String)>, current: &str) -> (r: String)
    ensures
        r@ == select_tag(view@, name@, crate::http::pair_texts(options@), current@),
{
    let ghost all = crate::http::pair_texts(options@);
    let mut tags = String::new();
    assert(tags@ =~= option_tags(all.take(0), current@));
    let mut i: usize = 0;
    while i < options.len()
        invariant
            i <= options@.len(),
            all == crate::http::pair_texts(options@),
            tags@ == option_tags(all.take(i as int), current@),
        decreases options@.len() - i,
    {
        let value = options[i].0.as_str();
        let label = options[i].1.as_str();
        proof {
            let next = all.take(i + 1);
            assert(next.drop_last() =~= all.take(i as int));
            assert(next.last() == (value@, label@));
        }
        let mark = if text::str_eq(value, current) {
            "\" selected>"
        } else {
            "\">"
        };
        let tag = "<option value=\"".to_owned().concat(escape(value).as_str()).concat(mark).concat(
            escape(label).as_str(),
        ).concat("</option>");
        tags.append(tag.as_str());
        i += 1;
    }
    assert(all.take(all.len() as int) =~= all);
    "<select name=\"".to_owned().concat(name).concat("\"").concat(wire(view, "change").as_str()).concat(
        ">",
    ).concat(tags.as_str()).concat("</select>")
}

/// A hidden field of a form.
pub open spec fn hidden_tag(name: Seq<char>, value: Seq<char>) -> Seq<char> {
    "<input type=\"hidden\" name=\""@ + name + "\" value=\""@ + escaped(value) + "\">"@
}

/// A hidden field of a form.
pub fn hidden(name: &str, value: &str) -> (r: String)
    ensures
        r@ == hidden_tag(name@, value@),
{
    "<input type=\"hidden\" name=\"".to_owned().concat(name).concat("\" value=\"").concat(
        escape(value).as_str(),
    ).concat("\">")
}

/// The checkbox that limits a view to unread threads. It submits a value that
/// reads as a `bool`.
pub open spec fn unread_tag(view: Seq<char>, checked: bool) -> Seq<char> {
    "<label><input type=\"checkbox\" name=\"unread\" value=\"true\""@ + (if checked {
        " checked"@
    } else {
        ""@
    }) + wiring(view, "change"@) + "> Unread only</label>"@
}

/// The checkbox that limits a view to unread threads.
pub fn unread(view: &str, checked: bool) -> (r: String)
    ensures
        r@ == unread_tag(view@, checked),
{
    let mark = if checked {
        " checked"
    } else {
        ""
    };
    "<label><input type=\"checkbox\" name=\"unread\" value=\"true\"".to_owned().concat(mark).concat(
        wire(view, "change").as_str(),
    ).concat("> Unread only</label>")
}

/// The field that searches a view as the user types.
pub open spec fn search_tag(view: Seq<char>, q: Seq<char>) -> Seq<char> {
    "<input type=\"search\" name=\"q\" placeholder=\"Search\" value=\""@ + escaped(q) + "\""@
        + wiring(view, "keyup changed delay:300ms"@) + ">"@
}

/// The field that searches a view as the user types.
pub fn search(view: &str, q: &str) -> (r: String)
    ensures
        r@ == search_tag(view@, q@),
{
    "<input type=\"search\" name=\"q\" placeholder=\"Search\" value=\"".to_owned().concat(
        escape(q).as_str(),
    ).concat("\"").concat(wire(view, "keyup changed delay:300ms").as_str()).concat(">")
}

/// A link with an escaped target and label.
pub open spec fn link_tag(href: Seq<char>, label: Seq<char>) -> Seq<char> {
    "<a href=\""@ + escaped(href) + "\" target=\"_blank\" rel=\"noopener\">"@ + escaped(label)
        + "</a>"@
}

/// A link with an escaped target and label.
pub fn link(href: &str, label: &str) -> (r: String)
    ensures
        r@ == link_tag(href@, label@),
{
    "<a href=\"".to_owned().concat(escape(href).as_str()).concat(
        "\" target=\"_blank\" rel=\"noopener\">",
    ).concat(escape(label).as_str()).concat("</a>")
}

/// A table cell with an escaped text.
pub open spec fn cell_tag(content: Seq<char>) -> Seq<char> {
    "<td>"@ + escaped(content) + "</td>"@
}

/// A table cell with an escaped text.
pub fn cell(content: &str) -> (r: String)
    ensures
        r@ == cell_tag(content@),
{
    "<td>".to_owned().concat(escape(content).as_str()).concat("</td>")
}

/// A button for one thing.
pub open spec fn button_tag(class: Seq<char>, id: Seq<char>, label: Seq<char>) -> Seq<char> {
    "<button type=\"button\" class=\""@ + class + "\" data-id=\""@ + escaped(id) + "\">"@ + label
        + "</button>"@
}

/// A button for one thing.
pub fn button(class: &str, id: &str, label: &str) -> (r: String)
    ensures
        r@ == button_tag(class@, id@, label@),
{
    "<button type=\"button\" class=\"".to_owned().concat(class).concat("\" data-id=\"").concat(
        escape(id).as_str(),
    ).concat("\">").concat(label).concat("</button>")
}

// ---- laws -----------------------------------------------------------------

/// The characters that can end or begin something in HTML.
pub open spec fn is_markup(c: char) -> bool {
    c == '<' || c == '>' || c == '"' || c == '\''
}

/// Escaped text cannot break out of where it stands: whatever the text, its
/// escaped form holds no angle bracket and no quote.
pub proof fn law_escaped_text_is_inert(s: Seq<char>)
    ensures
        forall|i: int| 0 <= i < escaped(s).len() ==> !is_markup(#[trigger] escaped(s)[i]),
    decreases s.len(),
{
    if s.len() > 0 {
        law_escaped_text_is_inert(s.drop_last());
        reveal_strlit("&#60;");
        reveal_strlit("&#62;");
        reveal_strlit("&#38;");
        reveal_strlit("&#34;");
        reveal_strlit("&#39;");
        let before = escaped(s.drop_last());
        let last = escaped_char(s.last());
        assert forall|i: int| 0 <= i < last.len() implies !is_markup(#[trigger] last[i]) by {
            assert(last.len() == 1 || last.len() == 5);
        }
        assert forall|i: int| 0 <= i < escaped(s).len() implies !is_markup(
            #[trigger] escaped(s)[i],
        ) by {
            if i < before.len() {
                assert(escaped(s)[i] == before[i]);
            } else {
                assert(escaped(s)[i] == last[i - before.len()]);
            }
        }
    }
}

/// Text is escaped character by character: the five characters that mean
/// something in HTML by their numbers, every other one as itself.
pub proof fn law_each_character_is_escaped(a: Seq<char>, b: Seq<char>, c: char)
    ensures
        escaped(a + b) == escaped(a) + escaped(b),
        escaped(seq!['<']) == "&#60;"@,
        escaped(seq!['>']) == "&#62;"@,
        escaped(seq!['&']) == "&#38;"@,
        escaped(seq!['"']) == "&#34;"@,
        escaped(seq!['\'']) == "&#39;"@,
        c != '<' && c != '>' && c != '&' && c != '"' && c != '\'' ==> escaped(seq![c]) == seq![c],
    decreases b.len(),
{
    if b.len() == 0 {
        assert(a + b =~= a);
        assert(escaped(a) + Seq::<char>::empty() =~= escaped(a));
    } else {
        assert((a + b).drop_last() =~= a + b.drop_last());
        assert((a + b).last() == b.last());
        law_each_character_is_escaped(a, b.drop_last(), c);
        assert(escaped(a + b) =~= escaped(a) + escaped(b));
    }
    lemma_escaped_one('<');
    lemma_escaped_one('>');
    lemma_escaped_one('&');
    lemma_escaped_one('"');
    lemma_escaped_one('\'');
    lemma_escaped_one(c);
}

/// One character is escaped by itself.
proof fn lemma_escaped_one(c: char)
    ensures
        escaped(seq![c]) == escaped_char(c),
{
    assert(seq![c].drop_last() =~= Seq::empty());
    assert(escaped(Seq::empty()) =~= Seq::empty());
    assert(Seq::<char>::empty() + escaped_char(c) =~= escaped_char(c));
}

/// A selector offers its options in order, each once, and shows as chosen exactly
/// those whose value is the current one.
pub proof fn law_selector_offers_its_options(
    options: Seq<(Seq<char>, Seq<char>)>,
    value: Seq<char>,
    label: Seq<char>,
    current: Seq<char>,
)
    ensures
        option_tags(options.push((value, label)), current) == option_tags(options, current)
            + option_tag(value, label, current),
        option_tags(Seq::empty(), current).len() == 0,
        value == current ==> option_tag(value, label, current) == "<option value=\""@ + escaped(
            value,
        ) + "\" selected>"@ + escaped(label) + "</option>"@,
        value != current ==> option_tag(value, label, current) == "<option value=\""@ + escaped(
            value,
        ) + "\">"@ + escaped(label) + "</option>"@,
{
    assert(options.push((value, label)).drop_last() =~= options);
}

/// The controls of a form carry what they are given, escaped, and load the view
/// that they stand in.
pub proof fn law_controls_carry_their_values(
    view: Seq<char>,
    name: Seq<char>,
    value: Seq<char>,
    trigger: Seq<char>,
)
    ensures
        hidden_tag(name, value) == "<input type=\"hidden\" name=\""@ + name + "\" value=\""@
            + escaped(value) + "\">"@,
        cell_tag(value) == "<td>"@ + escaped(value) + "</td>"@,
        link_tag(name, value) == "<a href=\""@ + escaped(name)
            + "\" target=\"_blank\" rel=\"noopener\">"@ + escaped(value) + "</a>"@,
        button_tag(view, name, value) == "<button type=\"button\" class=\""@ + view
            + "\" data-id=\""@ + escaped(name) + "\">"@ + value + "</button>"@,
        wiring(view, trigger) == " hx-get=\"/api/views/"@ + view
            + "\" hx-include=\"closest form\" hx-target=\"#view\" hx-trigger=\""@ + trigger
            + "\""@,
        unread_tag(view, true)
            == "<label><input type=\"checkbox\" name=\"unread\" value=\"true\""@ + " checked"@
            + wiring(view, "change"@) + "> Unread only</label>"@,
        unread_tag(view, false)
            == "<label><input type=\"checkbox\" name=\"unread\" value=\"true\""@ + ""@ + wiring(
            view,
            "change"@,
        ) + "> Unread only</label>"@,
        search_tag(view, value)
            == "<input type=\"search\" name=\"q\" placeholder=\"Search\" value=\""@ + escaped(
            value,
        ) + "\""@ + wiring(view, "keyup changed delay:300ms"@) + ">"@,
{
}

} // verus!
