//! The markup tags that express a state, and the strings that open and close
//! them round a run of text.

use vstd::prelude::*;
use vstd::seq_lib::lemma_flatten_concat;
use vstd::string::*;
use crate::color::{color_name, SgrColor};
use crate::state::GraphicsModeState;

verus! {

/// One markup element that styles a run of text.
#[derive(Debug, Clone, Copy, PartialEq, Eq, Structural)]
pub enum Tag {
    Bold,
    Italic,
    Underline,
    Strikethrough,
    /// A span that sets the CSS property `color`.
    Color(SgrColor),
    /// A span that sets the CSS property `background-color`.
    BackgroundColor(SgrColor),
}

impl Tag {
    /// The text that opens the element.
    pub open spec fn opening(self) -> Seq<char> {
        match self {
            Tag::Bold => "<strong>"@,
            Tag::Italic => "<em>"@,
            Tag::Underline => "<u>"@,
            Tag::Strikethrough => "<s>"@,
            Tag::Color(color) => "<span style=\"color: "@ + color.css_value() + "\">"@,
            Tag::BackgroundColor(color) => "<span style=\"background-color: "@ + color.css_value()
                + "\">"@,
        }
    }

    /// The text that closes the element.
    pub open spec fn closing(self) -> Seq<char> {
        match self {
            Tag::Bold => "</strong>"@,
            Tag::Italic => "</em>"@,
            Tag::Underline => "</u>"@,
            Tag::Strikethrough => "</s>"@,
            Tag::Color(_) => "</span>"@,
            Tag::BackgroundColor(_) => "</span>"@,
        }
    }

    /// Appends the text that opens the element to `out`.
    pub fn append_opening(&self, out: &mut String)
        ensures
            final(out)@ == old(out)@ + self.opening(),
    {
        match *self {
            Tag::Bold => out.append("<strong>"),
            Tag::Italic => out.append("<em>"),
            Tag::Underline => out.append("<u>"),
            Tag::Strikethrough => out.append("<s>"),
            Tag::Color(color) => {
                out.append("<span style=\"color: ");
                color.append_css_value(out);
                out.append("\">");
            },
            Tag::BackgroundColor(color) => {
                out.append("<span style=\"background-color: ");
                color.append_css_value(out);
                out.append("\">");
            },
        }
        assert(out@ =~= old(out)@ + self.opening());
    }

    /// Appends the text that closes the element to `out`.
    pub fn append_closing(&self, out: &mut String)
        ensures
            final(out)@ == old(out)@ + self.closing(),
    {
        match *self {
            Tag::Bold => out.append("</strong>"),
            Tag::Italic => out.append("</em>"),
            Tag::Underline => out.append("</u>"),
            Tag::Strikethrough => out.append("</s>"),
            Tag::Color(_) => out.append("</span>"),
            Tag::BackgroundColor(_) => out.append("</span>"),
        }
    }
}

/// The one tag `tag` where `active` holds, and no tag where it does not.
pub open spec fn tag_when(active: bool, tag: Tag) -> Seq<Tag> {
    if active {
        seq![tag]
    } else {
        Seq::empty()
    }
}

/// The opening texts of `tags`, one after the other.
pub open spec fn openings(tags: Seq<Tag>) -> Seq<char> {
    tags.flat_map(|tag: Tag| tag.opening())
}

/// The closing texts of `tags`, one after the other.
pub open spec fn closings(tags: Seq<Tag>) -> Seq<char> {
    tags.flat_map(|tag: Tag| tag.closing())
}

impl GraphicsModeState {
    /// The tags that the state asks for, outermost first: bold, italic,
    /// underline, strikethrough, foreground color, background color, each
    /// only if its attribute is active.
    pub open spec fn active_tags(self) -> Seq<Tag> {
        tag_when(self.bold, Tag::Bold) + tag_when(self.italic, Tag::Italic) + tag_when(
            self.underline,
            Tag::Underline,
        ) + tag_when(self.strikethrough, Tag::Strikethrough) + tag_when(
            self.color.is_active(),
            Tag::Color(self.color),
        ) + tag_when(self.background_color.is_active(), Tag::BackgroundColor(self.background_color))
    }

    /// What is written before a run of text: the active tags opened in order.
    pub open spec fn opening_tags(self) -> Seq<char> {
        openings(self.active_tags())
    }

    /// What is written after a run of text: the active tags closed in the
    /// reverse of the order in which they were opened.
    pub open spec fn closing_tags(self) -> Seq<char> {
        closings(self.active_tags().reverse())
    }

    /// Lists the tags that the state asks for, outermost first.
    pub fn tags(&self) -> (tags: Vec<Tag>)
        ensures
            tags@ == self.active_tags(),
    {
        let mut tags: Vec<Tag> = Vec::new();
        if self.bold {
            tags.push(Tag::Bold);
        }
        if self.italic {
            tags.push(Tag::Italic);
        }
        if self.underline {
            tags.push(Tag::Underline);
        }
        if self.strikethrough {
            tags.push(Tag::Strikethrough);
        }
        if self.color.active() {
            tags.push(Tag::Color(self.color));
        }
        if self.background_color.active() {
            tags.push(Tag::BackgroundColor(self.background_color));
        }
        assert(tags@ =~= self.active_tags());
        tags
    }

    /// Renders the state as a pair of strings, the opening tags and the
    /// closing tags, so that `opening + text + closing` is a properly nested
    /// fragment. Both are empty where no styling is active. The state is only
    /// read, and the result depends on nothing else.
    pub fn build_tags(&self) -> (tags: (String, String))
        ensures
            tags.0@ == self.opening_tags(),
            tags.1@ == self.closing_tags(),
            *self == GraphicsModeState::initial() ==> tags.0@.len() == 0 && tags.1@.len() == 0,
    {
        let mut opening = String::new();
        let mut closing = String::new();
        if *self == GraphicsModeState::default() {
            proof {
                lemma_initial_has_no_tags();
            }
            return (opening, closing);
        }
        let tags = self.tags();
        let count = tags.len();
        let mut i: usize = 0;
        while i < count
            invariant
                count == tags@.len(),
                i <= count,
                opening@ == openings(tags@.take(i as int)),
            decreases count - i,
        {
            proof {
                tags@.lemma_flat_map_take_append(|tag: Tag| tag.opening(), i as int);
            }
            tags[i].append_opening(&mut opening);
            i += 1;
        }
        let mut left: usize = count;
        while left > 0
            invariant
                count == tags@.len(),
                left <= count,
                closing@ == closings(tags@.reverse().take(count - left)),
            decreases left,
        {
            proof {
                tags@.reverse().lemma_flat_map_take_append(
                    |tag: Tag| tag.closing(),
                    count - left,
                );
            }
            left -= 1;
            tags[left].append_closing(&mut closing);
        }
        proof {
            assert(tags@.take(count as int) =~= tags@);
            assert(tags@.reverse().take(count as int) =~= tags@.reverse());
        }
        (opening, closing)
    }
}

/// The initial state asks for no tag.
pub proof fn lemma_initial_has_no_tags()
    ensures
        GraphicsModeState::initial().active_tags() == Seq::<Tag>::empty(),
        GraphicsModeState::initial().opening_tags() == Seq::<char>::empty(),
        GraphicsModeState::initial().closing_tags() == Seq::<char>::empty(),
{
    let tags = GraphicsModeState::initial().active_tags();
    assert(tags =~= Seq::<Tag>::empty());
    assert(tags.reverse() =~= Seq::<Tag>::empty());
    assert(openings(tags) =~= Seq::<char>::empty());
    assert(closings(tags.reverse()) =~= Seq::<char>::empty());
}

/// `text` where `active` holds, and nothing where it does not.
pub open spec fn text_when(active: bool, text: Seq<char>) -> Seq<char> {
    if active {
        text
    } else {
        Seq::empty()
    }
}

/// The texts of two lists of tags, one after the other, are the texts of
/// the two lists joined.
proof fn lemma_texts_of_joined_lists(first: Seq<Tag>, second: Seq<Tag>)
    ensures
        openings(first + second) == openings(first) + openings(second),
        closings(first + second) == closings(first) + closings(second),
{
    let opening = |tag: Tag| tag.opening();
    let closing = |tag: Tag| tag.closing();
    assert((first + second).map_values(opening) =~= first.map_values(opening) + second.map_values(
        opening,
    ));
    assert((first + second).map_values(closing) =~= first.map_values(closing) + second.map_values(
        closing,
    ));
    lemma_flatten_concat(first.map_values(opening), second.map_values(opening));
    lemma_flatten_concat(first.map_values(closing), second.map_values(closing));
}

/// A list of at most one tag reads the same in both directions, and its
/// texts are those of its tag.
proof fn lemma_texts_of_optional_tag(active: bool, tag: Tag)
    ensures
        tag_when(active, tag).reverse() == tag_when(active, tag),
        openings(tag_when(active, tag)) == text_when(active, tag.opening()),
        closings(tag_when(active, tag)) == text_when(active, tag.closing()),
{
    let tags = tag_when(active, tag);
    assert(tags.reverse() =~= tags);
    if active {
        tags.lemma_flat_map_singleton(|tag: Tag| tag.opening());
        tags.lemma_flat_map_singleton(|tag: Tag| tag.closing());
    } else {
        assert(openings(tags) =~= Seq::<char>::empty());
        assert(closings(tags) =~= Seq::<char>::empty());
    }
}

/// Tags nest. For every state, whichever of its six attributes are active,
/// the opening string holds the opening texts of the active attributes in
/// the order bold, italic, underline, strikethrough, foreground, background,
/// and the closing string holds their closing texts in exactly the reverse
/// order: what was opened last is closed first.
pub proof fn lemma_tags_nest(state: GraphicsModeState)
    ensures
        state.opening_tags() == text_when(state.bold, Tag::Bold.opening()) + text_when(
            state.italic,
            Tag::Italic.opening(),
        ) + text_when(state.underline, Tag::Underline.opening()) + text_when(
            state.strikethrough,
            Tag::Strikethrough.opening(),
        ) + text_when(state.color.is_active(), Tag::Color(state.color).opening()) + text_when(
            state.background_color.is_active(),
            Tag::BackgroundColor(state.background_color).opening(),
        ),
        state.closing_tags() == text_when(state.background_color.is_active(), "</span>"@)
            + text_when(state.color.is_active(), "</span>"@) + text_when(
            state.strikethrough,
            "</s>"@,
        ) + text_when(state.underline, "</u>"@) + text_when(state.italic, "</em>"@) + text_when(
            state.bold,
            "</strong>"@,
        ),
{
    let bold = tag_when(state.bold, Tag::Bold);
    let italic = tag_when(state.italic, Tag::Italic);
    let underline = tag_when(state.underline, Tag::Underline);
    let strikethrough = tag_when(state.strikethrough, Tag::Strikethrough);
    let color = tag_when(state.color.is_active(), Tag::Color(state.color));
    let background = tag_when(
        state.background_color.is_active(),
        Tag::BackgroundColor(state.background_color),
    );
    lemma_texts_of_optional_tag(state.bold, Tag::Bold);
    lemma_texts_of_optional_tag(state.italic, Tag::Italic);
    lemma_texts_of_optional_tag(state.underline, Tag::Underline);
    lemma_texts_of_optional_tag(state.strikethrough, Tag::Strikethrough);
    lemma_texts_of_optional_tag(state.color.is_active(), Tag::Color(state.color));
    lemma_texts_of_optional_tag(
        state.background_color.is_active(),
        Tag::BackgroundColor(state.background_color),
    );
    lemma_texts_of_six_lists(bold, italic, underline, strikethrough, color, background);
    lemma_reverse_of_six_lists(bold, italic, underline, strikethrough, color, background);
    lemma_texts_of_six_lists(background, color, strikethrough, underline, italic, bold);
}

/// The texts of six lists of tags joined are the texts of the six, joined.
proof fn lemma_texts_of_six_lists(
    a: Seq<Tag>,
    b: Seq<Tag>,
    c: Seq<Tag>,
    d: Seq<Tag>,
    e: Seq<Tag>,
    f: Seq<Tag>,
)
    ensures
        openings(a + b + c + d + e + f) == openings(a) + openings(b) + openings(c) + openings(d)
            + openings(e) + openings(f),
        closings(a + b + c + d + e + f) == closings(a) + closings(b) + closings(c) + closings(d)
            + closings(e) + closings(f),
{
    lemma_texts_of_joined_lists(a, b);
    lemma_texts_of_joined_lists(a + b, c);
    lemma_texts_of_joined_lists(a + b + c, d);
    lemma_texts_of_joined_lists(a + b + c + d, e);
    lemma_texts_of_joined_lists(a + b + c + d + e, f);
}

/// Reversing two joined lists reverses each and swaps them.
proof fn lemma_reverse_of_joined_lists(first: Seq<Tag>, second: Seq<Tag>)
    ensures
        (first + second).reverse() == second.reverse() + first.reverse(),
{
    assert((first + second).reverse() =~= second.reverse() + first.reverse());
}

/// Six lists that each read the same in both directions, joined and
/// reversed, are the six joined in the opposite order.
proof fn lemma_reverse_of_six_lists(
    a: Seq<Tag>,
    b: Seq<Tag>,
    c: Seq<Tag>,
    d: Seq<Tag>,
    e: Seq<Tag>,
    f: Seq<Tag>,
)
    requires
        a.reverse() == a,
        b.reverse() == b,
        c.reverse() == c,
        d.reverse() == d,
        e.reverse() == e,
        f.reverse() == f,
    ensures
        (a + b + c + d + e + f).reverse() == f + e + d + c + b + a,
{
    lemma_reverse_of_joined_lists(a, b);
    lemma_reverse_of_joined_lists(a + b, c);
    lemma_reverse_of_joined_lists(a + b + c, d);
    lemma_reverse_of_joined_lists(a + b + c + d, e);
    lemma_reverse_of_joined_lists(a + b + c + d + e, f);
    assert(f + (e + (d + (c + (b + a)))) =~= f + e + d + c + b + a);
}

/// `body` enclosed in the elements of `tags`, the first of them outermost.
pub open spec fn enclosed(tags: Seq<Tag>, body: Seq<char>) -> Seq<char>
    decreases tags.len(),
{
    if tags.len() == 0 {
        body
    } else {
        tags[0].opening() + enclosed(tags.skip(1), body) + tags[0].closing()
    }
}

/// Opening a list of tags in order before `body` and closing it in reverse
/// order behind encloses `body` in one element per tag, each element inside
/// the one before it.
pub proof fn lemma_enclosed_by_tags(tags: Seq<Tag>, body: Seq<char>)
    ensures
        openings(tags) + body + closings(tags.reverse()) == enclosed(tags, body),
    decreases tags.len(),
{
    if tags.len() == 0 {
        assert(tags.reverse() =~= tags);
        assert(openings(tags) =~= Seq::<char>::empty());
        assert(closings(tags) =~= Seq::<char>::empty());
        assert(openings(tags) + body + closings(tags.reverse()) =~= body);
    } else {
        let outer = seq![tags[0]];
        let inner = tags.skip(1);
        assert(tags =~= outer + inner);
        assert(tags.reverse() =~= inner.reverse() + outer);
        lemma_texts_of_joined_lists(outer, inner);
        lemma_texts_of_joined_lists(inner.reverse(), outer);
        outer.lemma_flat_map_singleton(|tag: Tag| tag.opening());
        outer.lemma_flat_map_singleton(|tag: Tag| tag.closing());
        lemma_enclosed_by_tags(inner, body);
        assert(openings(tags) + body + closings(tags.reverse()) =~= tags[0].opening() + (openings(
            inner,
        ) + body + closings(inner.reverse())) + tags[0].closing());
    }
}

/// Rendering is repeatable: the two strings depend on the state alone, so
/// building the tags of equal states, or of one state twice, gives the same
/// pair both times.
pub proof fn lemma_rendering_is_repeatable(first: GraphicsModeState, second: GraphicsModeState)
    requires
        first == second,
    ensures
        first.opening_tags() == second.opening_tags(),
        first.closing_tags() == second.closing_tags(),
{
}

/// The color table. A foreground set to the standard color `n` opens a span
/// whose `color` refers to the custom property named after the `n`-th entry
/// of the table: black, red, green, yellow, blue, purple, cyan, gray.
pub proof fn lemma_console_color_names(n: u8)
    requires
        n <= 7,
    ensures
        (GraphicsModeState { color: SgrColor::Console(n), ..GraphicsModeState::initial() }).opening_tags()
            == "<span style=\"color: var(--color-"@ + color_name(n) + ")\">"@,
        (GraphicsModeState { color: SgrColor::Console(n), ..GraphicsModeState::initial() }).closing_tags()
            == "</span>"@,
        color_name(0) == "black"@,
        color_name(1) == "red"@,
        color_name(2) == "green"@,
        color_name(3) == "yellow"@,
        color_name(4) == "blue"@,
        color_name(5) == "purple"@,
        color_name(6) == "cyan"@,
        color_name(7) == "gray"@,
{
    let state = GraphicsModeState { color: SgrColor::Console(n), ..GraphicsModeState::initial() };
    lemma_tags_nest(state);
    reveal_strlit("<span style=\"color: var(--color-");
    reveal_strlit(")\">");
    reveal_strlit("<span style=\"color: ");
    reveal_strlit("var(--color-");
    reveal_strlit(")");
    reveal_strlit("\">");
    assert(state.opening_tags() =~= Tag::Color(state.color).opening());
    assert(state.closing_tags() =~= "</span>"@);
    assert(Tag::Color(state.color).opening() =~= "<span style=\"color: var(--color-"@ + color_name(
        n,
    ) + ")\">"@);
}

} // verus!
