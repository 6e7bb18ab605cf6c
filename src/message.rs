use llm::chat::{ChatMessage, ChatRole, MessageType};
use vstd::prelude::*;
use vstd::string::StrSliceExecFns;

use crate::text::{push_char, regex_compiles, regex_replaced, trim, trimmed, Pattern};

verus! {

/// Who said a message: the user, or the character at an index into the
/// character list.
#[derive(Debug, Clone, Copy, PartialEq, Eq, Structural)]
pub enum OwnerType {
    User,
    Char(usize),
}

/// Index of the owner in the participant list `[user, char 0, char 1, ...]`.
/// The character index saturates at the top of the `usize` range.
pub open spec fn owner_index(o: OwnerType) -> usize {
    match o {
        OwnerType::User => 0,
        OwnerType::Char(i) => if i < usize::MAX { (i + 1) as usize } else { usize::MAX },
    }
}

impl From<OwnerType> for usize {
    fn from(value: OwnerType) -> (r: usize)
        ensures
            r == owner_index(value),
    {
        match value {
            OwnerType::User => 0,
            OwnerType::Char(i) => if i < usize::MAX {
                i + 1
            } else {
                usize::MAX
            },
        }
    }
}

impl vstd::std_specs::convert::FromSpecImpl<OwnerType> for usize {
    open spec fn obeys_from_spec() -> bool {
        true
    }

    open spec fn from_spec(v: OwnerType) -> usize {
        owner_index(v)
    }
}

/// One turn of the conversation. Its text is replaced wholesale by an edit
/// and only grows while a reply is streamed into it.
#[derive(Debug)]
pub struct Message {
    pub owner: OwnerType,
    pub text: String,
    pub id: usize,
}

impl Clone for Message {
    fn clone(&self) -> (r: Self)
        ensures
            r == *self,
    {
        Message { owner: self.owner, text: self.text.clone(), id: self.id }
    }
}

impl Message {
    pub fn from_user(text: String, id: usize) -> (r: Self)
        ensures
            r.owner == OwnerType::User,
            r.text@ == text@,
            r.id == id,
    {
        Message { owner: OwnerType::User, text, id }
    }

    pub fn from_char(char_id: usize, text: String, id: usize) -> (r: Self)
        ensures
            r.owner == OwnerType::Char(char_id),
            r.text@ == text@,
            r.id == id,
    {
        Message { owner: OwnerType::Char(char_id), text, id }
    }

    /// A character turn with no text yet: the slot that a generation run fills.
    pub fn empty_from_char(char_id: usize, id: usize) -> (r: Self)
        ensures
            r.owner == OwnerType::Char(char_id),
            r.text@ == Seq::<char>::empty(),
            r.id == id,
    {
        Self::from_char(char_id, String::new(), id)
    }

    /// A sibling of this message: same owner, no text, a new identity.
    pub fn create_brother(&self, id: usize) -> (r: Self)
        ensures
            r.owner == self.owner,
            r.text@ == Seq::<char>::empty(),
            r.id == id,
    {
        Message { owner: self.owner, text: String::new(), id }
    }

    pub fn id(&self) -> (r: usize)
        ensures
            r == self.id,
    {
        self.id
    }
}

/// How a run of text is shown: plain, strong (between `*`), quoted (between
/// quotation marks), or both.
#[derive(Clone, Copy, PartialEq, Eq, Debug, Structural)]
pub enum Style {
    Normal,
    Strong,
    Quote,
    StrongQuote,
}

/// A straight or curly double quotation mark.
pub open spec fn is_quote_mark(c: char) -> bool {
    c == '"' || c == '\u{201C}' || c == '\u{201D}'
}

/// A character that switches the style: `*` or a quotation mark.
pub open spec fn is_marker(c: char) -> bool {
    c == '*' || is_quote_mark(c)
}

impl Style {
    pub open spec fn is_strong(self) -> bool {
        self == Style::Strong || self == Style::StrongQuote
    }

    pub open spec fn is_quoted(self) -> bool {
        self == Style::Quote || self == Style::StrongQuote
    }

    pub open spec fn from_flags(strong: bool, quoted: bool) -> Style {
        if strong {
            if quoted { Style::StrongQuote } else { Style::Strong }
        } else {
            if quoted { Style::Quote } else { Style::Normal }
        }
    }

    /// The style after reading `c`: `*` toggles strong, a quotation mark
    /// toggles quoted, any other character leaves the style as it is.
    pub open spec fn after(self, c: char) -> Style {
        if c == '*' {
            Style::from_flags(!self.is_strong(), self.is_quoted())
        } else if is_quote_mark(c) {
            Style::from_flags(self.is_strong(), !self.is_quoted())
        } else {
            self
        }
    }

    /// The style after `ch`, and whether `ch` closes the run it ends (a
    /// marker read inside a styled run belongs to that run; one read in
    /// plain text opens the next run).
    pub fn next(self, ch: char) -> (r: (Style, bool))
        ensures
            r.0 == self.after(ch),
            r.1 == (is_marker(ch) && self != Style::Normal),
    {
        let mut push_next = match self {
            Style::Normal => false,
            _ => true,
        };
        let ns = match ch {
            '*' => match self {
                Style::Normal => Style::Strong,
                Style::Strong => Style::Normal,
                Style::Quote => Style::StrongQuote,
                Style::StrongQuote => Style::Quote,
            },
            '"' | '\u{201C}' | '\u{201D}' => match self {
                Style::Normal => Style::Quote,
                Style::Quote => Style::Normal,
                Style::Strong => Style::StrongQuote,
                Style::StrongQuote => Style::Strong,
            },
            _ => {
                push_next = false;
                self
            },
        };
        (ns, push_next)
    }
}

/// `runs` with the run `cur` of style `st` added, unless `cur` is empty.
pub open spec fn flush(runs: Seq<(Seq<char>, Style)>, cur: Seq<char>, st: Style) -> Seq<(Seq<char>, Style)> {
    if cur.len() > 0 {
        runs.push((cur, st))
    } else {
        runs
    }
}

/// Reading a line character by character: the finished runs, the run being
/// read, and its style. A marker ends the current run; inside a styled run
/// the marker closes it, in plain text it opens the next one.
pub open spec fn scan(text: Seq<char>) -> (Seq<(Seq<char>, Style)>, Seq<char>, Style)
    decreases text.len(),
{
    if text.len() == 0 {
        (Seq::empty(), Seq::empty(), Style::Normal)
    } else {
        let (runs, cur, st) = scan(text.drop_last());
        let c = text.last();
        if !is_marker(c) {
            (runs, cur.push(c), st)
        } else if st != Style::Normal {
            (flush(runs, cur.push(c), st), Seq::empty(), st.after(c))
        } else {
            (flush(runs, cur, st), seq![c], st.after(c))
        }
    }
}

/// The styled runs of one line of text, none of them empty.
pub open spec fn styled_runs(text: Seq<char>) -> Seq<(Seq<char>, Style)> {
    let (runs, cur, st) = scan(text);
    flush(runs, cur, st)
}

/// The texts of `runs` put one after another.
pub open spec fn joined(runs: Seq<(Seq<char>, Style)>) -> Seq<char>
    decreases runs.len(),
{
    if runs.len() == 0 {
        Seq::empty()
    } else {
        joined(runs.drop_last()) + runs.last().0
    }
}

pub open spec fn run_view(p: (String, Style)) -> (Seq<char>, Style) {
    (p.0@, p.1)
}

/// The pieces of `text` between line breaks, as `str::split('\n')` gives
/// them: one more piece than there are line breaks.
pub open spec fn lines_of(text: Seq<char>) -> Seq<Seq<char>>
    decreases text.len(),
{
    if text.len() == 0 {
        seq![Seq::empty()]
    } else {
        let parts = lines_of(text.drop_last());
        let c = text.last();
        if c == '\n' {
            parts.push(Seq::empty())
        } else {
            parts.update(parts.len() - 1, parts.last().push(c))
        }
    }
}

/// The styled runs of each of `lines`, leaving out the lines that have none.
pub open spec fn styled_lines(lines: Seq<Seq<char>>) -> Seq<Seq<(Seq<char>, Style)>>
    decreases lines.len(),
{
    if lines.len() == 0 {
        Seq::empty()
    } else {
        let earlier = styled_lines(lines.drop_last());
        let runs = styled_runs(lines.last());
        if runs.len() > 0 {
            earlier.push(runs)
        } else {
            earlier
        }
    }
}

impl Message {
    /// Splits one line into its styled runs.
    pub fn line(text: &str) -> (r: Vec<(String, Style)>)
        ensures
            r@.map_values(|p: (String, Style)| run_view(p)) == styled_runs(text@),
    {
        let mut line: Vec<(String, Style)> = Vec::new();
        let mut cs = Style::Normal;
        let mut ct = String::new();
        let n = text.unicode_len();
        let mut i: usize = 0;
        while i < n
            invariant
                n == text@.len(),
                i <= n,
                scan(text@.take(i as int)) == (
                    line@.map_values(|p: (String, Style)| run_view(p)),
                    ct@,
                    cs,
                ),
            decreases n - i,
        {
            let ch = text.get_char(i);
            let ghost prev = line@.map_values(|p: (String, Style)| run_view(p));
            let ghost prev_ct = ct@;
            let (ns, push_next) = cs.next(ch);
            if ns != cs {
                if push_next {
                    push_char(&mut ct, ch);
                }
                if !ct.as_str().is_empty() {
                    line.push((ct, cs));
                }
                ct = String::new();
                if !push_next {
                    push_char(&mut ct, ch);
                }
            } else {
                push_char(&mut ct, ch);
            }
            proof {
                assert(text@.take(i + 1).drop_last() =~= text@.take(i as int));
                assert(text@.take(i + 1).last() == ch);
                assert(line@.map_values(|p: (String, Style)| run_view(p)) =~= scan(text@.take(i + 1)).0);
            }
            cs = ns;
            i += 1;
        }
        let ghost before = line@.map_values(|p: (String, Style)| run_view(p));
        if !ct.as_str().is_empty() {
            line.push((ct, cs));
        }
        proof {
            assert(text@.take(n as int) =~= text@);
            assert(line@.map_values(|p: (String, Style)| run_view(p)) =~= styled_runs(text@));
        }
        line
    }

    /// Splits `text` at each line break, as `str::split('\n')` does.
    pub fn split_lines(text: &str) -> (r: Vec<String>)
        ensures
            r@.map_values(|s: String| s@) == lines_of(text@),
    {
        let mut parts: Vec<String> = Vec::new();
        let mut cur = String::new();
        let n = text.unicode_len();
        let mut i: usize = 0;
        while i < n
            invariant
                n == text@.len(),
                i <= n,
                parts@.map_values(|s: String| s@).push(cur@) == lines_of(text@.take(i as int)),
            decreases n - i,
        {
            let ch = text.get_char(i);
            proof {
                assert(text@.take(i + 1).drop_last() =~= text@.take(i as int));
                assert(text@.take(i + 1).last() == ch);
            }
            if ch == '\n' {
                parts.push(cur);
                cur = String::new();
            } else {
                push_char(&mut cur, ch);
            }
            proof {
                assert(parts@.map_values(|s: String| s@).push(cur@) =~= lines_of(text@.take(i + 1)));
            }
            i += 1;
        }
        parts.push(cur);
        proof {
            assert(text@.take(n as int) =~= text@);
            assert(parts@.map_values(|s: String| s@) =~= lines_of(text@));
        }
        parts
    }
}

/// Markdown images, with the whitespace that follows them.
pub open spec fn image_pattern() -> Seq<char> {
    "!\\[[^\\]]*\\]\\([^)]*\\)[ \\t\\r\\n]*"@
}

/// A line break with the spaces, tabs and carriage returns around it.
pub open spec fn line_break_pattern() -> Seq<char> {
    "[ \\t\\r]*\\n[ \\t\\r]*"@
}

/// `text` with each match of `pattern` replaced, or `text` itself when the
/// pattern does not compile.
pub open spec fn replaced_if_valid(pattern: Seq<char>, text: Seq<char>, replacement: Seq<char>) -> Seq<char> {
    if regex_compiles(pattern) {
        regex_replaced(pattern, text, replacement)
    } else {
        text
    }
}

/// The text as it is shown: images removed, each line break freed of the
/// blanks around it, trimmed, and ended by a single line break.
pub open spec fn cleaned(text: Seq<char>) -> Seq<char> {
    let no_images = replaced_if_valid(image_pattern(), text, ""@);
    let one_breaks = replaced_if_valid(line_break_pattern(), no_images, "\n"@);
    trimmed(one_breaks).push('\n')
}

pub open spec fn line_view(l: Vec<(String, Style)>) -> Seq<(Seq<char>, Style)> {
    l@.map_values(|p: (String, Style)| run_view(p))
}

impl Message {
    /// The text as it is shown; see `cleaned`.
    pub fn clean(&self) -> (r: String)
        ensures
            r@ == cleaned(self.text@),
    {
        let no_images = match Pattern::compile("!\\[[^\\]]*\\]\\([^)]*\\)[ \\t\\r\\n]*") {
            Some(p) => p.replace_all(self.text.as_str(), ""),
            None => self.text.clone(),
        };
        let one_breaks = match Pattern::compile("[ \\t\\r]*\\n[ \\t\\r]*") {
            Some(p) => p.replace_all(no_images.as_str(), "\n"),
            None => no_images,
        };
        let mut cleaned = trim(one_breaks.as_str());
        push_char(&mut cleaned, '\n');
        cleaned
    }

    /// The shown text as styled runs, line by line, without the lines that
    /// have no runs.
    pub fn spans(&self) -> (r: Vec<Vec<(String, Style)>>)
        ensures
            r@.map_values(|l: Vec<(String, Style)>| line_view(l)) == styled_lines(lines_of(cleaned(self.text@))),
    {
        let cleaned = self.clean();
        let lines = Self::split_lines(cleaned.as_str());
        let ghost lv = lines@.map_values(|s: String| s@);
        let mut spans: Vec<Vec<(String, Style)>> = Vec::new();
        let mut i: usize = 0;
        while i < lines.len()
            invariant
                i <= lines@.len(),
                lv == lines@.map_values(|s: String| s@),
                spans@.map_values(|l: Vec<(String, Style)>| line_view(l)) == styled_lines(lv.take(i as int)),
            decreases lines@.len() - i,
        {
            let line = Self::line(lines[i].as_str());
            proof {
                assert(lv.take(i + 1).drop_last() =~= lv.take(i as int));
                assert(lv.take(i + 1).last() == lines@[i as int]@);
            }
            if line.len() > 0 {
                spans.push(line);
            }
            proof {
                assert(spans@.map_values(|l: Vec<(String, Style)>| line_view(l)) =~= styled_lines(lv.take(i + 1)));
            }
            i += 1;
        }
        proof {
            assert(lv.take(lines@.len() as int) =~= lv);
        }
        spans
    }
}

#[verifier::external_type_specification]
pub struct ExChatRole(llm::chat::ChatRole);

#[verifier::external_type_specification]
#[verifier::external_body]
pub struct ExImageMime(llm::chat::ImageMime);

#[verifier::external_type_specification]
#[verifier::external_body]
pub struct ExToolCall(llm::ToolCall);

#[verifier::external_type_specification]
pub struct ExMessageType(llm::chat::MessageType);

#[verifier::external_type_specification]
pub struct ExChatMessage(llm::chat::ChatMessage);

/// Relies on llm's `ChatMessage` builder: `user()` or `assistant()`, then
/// `content(text)` and `build()`, give a text message with that role and
/// content.
#[verifier::external_body]
fn chat_message(role: ChatRole, text: &str) -> (r: ChatMessage)
    ensures
        r.role == role,
        r.message_type == MessageType::Text,
        r.content@ == text@,
{
    let builder = match role {
        ChatRole::User => ChatMessage::user(),
        ChatRole::Assistant => ChatMessage::assistant(),
    };
    builder.content(text).build()
}

/// The provider's role for a message's owner: the user speaks as `User`,
/// every character as `Assistant`.
pub open spec fn role_of(owner: OwnerType) -> ChatRole {
    match owner {
        OwnerType::User => ChatRole::User,
        OwnerType::Char(_) => ChatRole::Assistant,
    }
}

impl Message {
    /// The message as a provider request message.
    pub fn to_chat_message(&self) -> (r: ChatMessage)
        ensures
            r.role == role_of(self.owner),
            r.message_type == MessageType::Text,
            r.content@ == self.text@,
    {
        let role = match self.owner {
            OwnerType::User => ChatRole::User,
            OwnerType::Char(_) => ChatRole::Assistant,
        };
        chat_message(role, self.text.as_str())
    }
}

} // verus!
