//! What the conversation tab shows. Messages carry counters only, no times.
use crate::codec::models;
use crate::storage::records::{StoredMessage, StoredMessageView};
use crate::text;
use crate::text::{decimal, lower, six_digits};
use crate::ui::conversation_keys::matches_query;
use crate::ui::input::{display_text, sanitize_for_display};
use vstd::prelude::*;

verus! {

/// A message on screen.
pub struct MessageLine {
    /// The counter, as in `[#000001] `.
    pub counter: String,
    /// Whether we wrote it.
    pub from_us: bool,
    pub content: String,
}

/// What a [`MessageLine`] means.
#[verifier::ext_equal]
pub struct LineView {
    pub counter: Seq<char>,
    pub from_us: bool,
    pub content: Seq<char>,
}

impl View for MessageLine {
    type V = LineView;

    open spec fn view(&self) -> LineView {
        LineView { counter: self.counter@, from_us: self.from_us, content: self.content@ }
    }
}

impl MessageLine {
    /// Who wrote the message, padded to one width.
    pub fn prefix(&self) -> (r: &'static str)
        ensures
            r@ == (if self.from_us {
                "You  "@
            } else {
                "Them "@
            }),
    {
        if self.from_us {
            "You  "
        } else {
            "Them "
        }
    }
}

/// The line of a message.
pub open spec fn line_of(m: StoredMessageView) -> LineView {
    LineView {
        counter: "[#"@ + six_digits(m.counter as nat) + "] "@,
        from_us: m.from_us,
        content: display_text(m.content),
    }
}

/// The views of lines.
pub open spec fn line_views(s: Seq<MessageLine>) -> Seq<LineView> {
    Seq::new(s.len(), |i: int| s[i]@)
}

/// The lines of the messages that match a search; without a query all do.
pub open spec fn shown_lines(messages: Seq<StoredMessageView>, query: Seq<char>) -> Seq<LineView>
    decreases messages.len(),
{
    if messages.len() == 0 {
        seq![]
    } else {
        let front = shown_lines(messages.drop_last(), query);
        if query.len() == 0 || matches_query(messages.last(), query) {
            front.push(line_of(messages.last()))
        } else {
            front
        }
    }
}

/// The lines of the messages that match a search.
pub fn message_lines(messages: &Vec<StoredMessage>, query: &str) -> (r: Vec<MessageLine>)
    ensures
        line_views(r@) == shown_lines(models(messages@), query@),
{
    let lowered = text::lower_case(query);
    let every = query.is_empty();
    let ghost all = models(messages@);
    let mut lines: Vec<MessageLine> = Vec::new();
    let mut i: usize = 0;
    assert(line_views(lines@) =~= shown_lines(all.take(0), query@));
    while i < messages.len()
        invariant
            i <= messages@.len(),
            all == models(messages@),
            lowered@ == lower(query@),
            every == (query@.len() == 0),
            line_views(lines@) == shown_lines(all.take(i as int), query@),
        decreases messages@.len() - i,
    {
        let ghost before = lines@;
        assert(all.take(i + 1).drop_last() =~= all.take(i as int));
        assert(all.take(i + 1).last() == messages@[i as int]@);
        let m = &messages[i];
        if every || text::contains(
            text::lower_case(m.content.as_str()).as_str(),
            lowered.as_str(),
        ) {
            let line = MessageLine {
                counter: text::joined3("[#", text::six_digit_text(m.counter).as_str(), "] "),
                from_us: m.from_us,
                content: sanitize_for_display(m.content.as_str()),
            };
            let ghost view = line@;
            lines.push(line);
            assert(line_views(lines@) =~= line_views(before).push(view));
        }
        i = i + 1;
    }
    assert(all.take(i as int) =~= all);
    lines
}

/// The conversation tab.
pub struct ConversationScreen {
    pub title: String,
    pub lines: Vec<MessageLine>,
    pub draft_title: String,
    pub draft: String,
}

/// The title of a conversation, with the search in it where there is one.
pub open spec fn title_of(name: Seq<char>, query: Seq<char>, shown: nat, all: nat) -> Seq<char> {
    if query.len() == 0 {
        " "@ + display_text(name) + " "@
    } else {
        " "@ + display_text(name) + " — search: \""@ + display_text(query) + "\" ("@ + decimal(
            shown,
        ) + "/"@ + decimal(all) + ") "@
    }
}

/// The title of the field that a message is written in.
pub open spec fn draft_title_of(query: Seq<char>) -> Seq<char> {
    if query.len() == 0 {
        "Message (Enter to send, Esc to cancel, /:search)"@
    } else {
        "Message  [search active — Esc to clear]"@
    }
}

/// What the conversation tab shows of the conversation with a contact. Whatever
/// came from outside is sanitized.
pub fn conversation_screen(
    contact_name: &str,
    messages: &Vec<StoredMessage>,
    draft: &str,
    search_query: &str,
) -> (r: ConversationScreen)
    ensures
        line_views(r.lines@) == shown_lines(models(messages@), search_query@),
        r.title@ == title_of(contact_name@, search_query@, r.lines@.len(), messages@.len()),
        r.draft_title@ == draft_title_of(search_query@),
        r.draft@ == display_text(draft@),
{
    let lines = message_lines(messages, search_query);
    let name = sanitize_for_display(contact_name);
    let draft = sanitize_for_display(draft);
    if search_query.is_empty() {
        return ConversationScreen {
            title: text::joined3(" ", name.as_str(), " "),
            lines,
            draft_title: "Message (Enter to send, Esc to cancel, /:search)".to_owned(),
            draft,
        };
    }
    let front = text::joined3(" ", name.as_str(), " — search: \"");
    let front = text::joined3(
        front.as_str(),
        sanitize_for_display(search_query).as_str(),
        "\" (",
    );
    let front = text::joined3(
        front.as_str(),
        text::decimal_text(lines.len() as u64).as_str(),
        "/",
    );
    let title = text::joined3(
        front.as_str(),
        text::decimal_text(messages.len() as u64).as_str(),
        ") ",
    );
    ConversationScreen {
        title,
        lines,
        draft_title: "Message  [search active — Esc to clear]".to_owned(),
        draft,
    }
}

} // verus!
