//! The messages of a conversation and the text a turn is built from.

use vstd::prelude::*;
use crate::text::{
    chars_of, concat, lead_len, lemma_lead_is, lemma_trail_is, slice_to_vec, string_from_chars,
    trim, trim_chars, trim_start_by, trim_ws, CharClass,
};
use crate::assistant::history::byte_len;

verus! {

/// One message of a conversation.
#[derive(Clone, Debug)]
pub struct ChatMessage {
    /// "user", "assistant" or "system".
    pub role: String,
    pub content: String,
}

impl View for ChatMessage {
    type V = (Seq<char>, Seq<char>);

    open spec fn view(&self) -> (Seq<char>, Seq<char>) {
        (self.role@, self.content@)
    }
}

/// The views of some messages.
pub open spec fn messages_view(v: Seq<ChatMessage>) -> Seq<(Seq<char>, Seq<char>)> {
    v.map_values(|m: ChatMessage| m@)
}

/// A text-like file attached to a turn as context.
#[derive(Clone, Debug)]
pub struct FileAttachment {
    pub name: String,
    pub content: String,
}

impl View for FileAttachment {
    type V = (Seq<char>, Seq<char>);

    open spec fn view(&self) -> (Seq<char>, Seq<char>) {
        (self.name@, self.content@)
    }
}

/// The views of some attachments.
pub open spec fn files_view(v: Seq<FileAttachment>) -> Seq<(Seq<char>, Seq<char>)> {
    v.map_values(|f: FileAttachment| f@)
}

/// The conversation continued from message `index`: the messages up to and
/// including it, or all of them when the index is past the end.
pub open spec fn branch_len(len: nat, index: usize) -> nat {
    if index as nat + 1 < len {
        index as nat + 1
    } else {
        len
    }
}

/// Continue a conversation from message `message_index`: the messages up to
/// and including it, in order. An index past the end keeps everything.
pub fn branch_messages(messages: Vec<ChatMessage>, message_index: usize) -> (r: Vec<ChatMessage>)
    ensures
        messages_view(r@) == messages_view(messages@).take(
            branch_len(messages@.len(), message_index) as int,
        ),
{
    let keep = if message_index < messages.len() {
        message_index + 1
    } else {
        messages.len()
    };
    let ghost all = messages_view(messages@);
    let mut out: Vec<ChatMessage> = Vec::new();
    let mut i: usize = 0;
    while i < keep
        invariant
            keep <= messages@.len(),
            i <= keep,
            all == messages_view(messages@),
            messages_view(out@) == all.take(i as int),
        decreases keep - i,
    {
        let ghost before = messages_view(out@);
        let m = ChatMessage { role: messages[i].role.clone(), content: messages[i].content.clone() };
        out.push(m);
        proof {
            assert(messages_view(out@) =~= before.push(messages@[i as int]@));
            assert(all.take(i + 1) =~= all.take(i as int).push(all[i as int]));
        }
        i += 1;
    }
    out
}

/// Whether a quick ask starts from a clean slate: never during a call, and
/// not when the answer card is on screen (then it is a follow-up).
pub fn should_reset_quick_ask(call_active: bool, card_on_screen: bool) -> (r: bool)
    ensures
        r == (!call_active && !card_on_screen),
{
    !call_active && !card_on_screen
}

/// Whether a turn speaks its reply: only in a call, and only when the user
/// wants it to.
pub fn should_speak_reply(is_call: bool, setting_enabled: bool) -> (r: bool)
    ensures
        r == (is_call && setting_enabled),
{
    is_call && setting_enabled
}

/// Appended to the stored user message when a screenshot was sent with it.
pub const SCREENSHOT_MARKER: &'static str = "[screenshot attached]";

/// Appended, once per image, when the user attached images.
pub const IMAGE_MARKER: &'static str = "[image attached]";

/// Prefix of a file attachment marker: `[file attached: name]`.
pub const FILE_MARKER_PREFIX: &'static str = "[file attached:";

/// Opens the text the user had selected in another application.
pub const SELECTION_OPEN: &'static str = "<selected_text>";

/// Closes the selected text.
pub const SELECTION_CLOSE: &'static str = "</selected_text>";

/// The lead-in of a request about a selection.
pub const SELECTION_LEAD: &'static str = "The user has this text selected in another application:\n";

/// The line that introduces the user's request about the selection.
pub const REQUEST_LEAD: &'static str = "\n\nTheir request about it: ";

/// A line break.
pub const NEWLINE: &'static str = "\n";

/// One user message holding a captured selection and the user's request
/// about it: a lead-in line, the delimited selection, then the request.
pub open spec fn selection_request(selection: Seq<char>, user_text: Seq<char>) -> Seq<char> {
    SELECTION_LEAD@ + SELECTION_OPEN@ + NEWLINE@ + selection + NEWLINE@ + SELECTION_CLOSE@
        + REQUEST_LEAD@ + user_text
}

/// Wrap a captured selection and the user's question into one user message.
pub fn compose_selection_request(selection: &str, user_text: &str) -> (r: String)
    ensures
        r@ == selection_request(selection@, user_text@),
{
    let s = concat(SELECTION_LEAD, SELECTION_OPEN);
    let s = concat(s.as_str(), NEWLINE);
    let s = concat(s.as_str(), selection);
    let s = concat(s.as_str(), NEWLINE);
    let s = concat(s.as_str(), SELECTION_CLOSE);
    let s = concat(s.as_str(), REQUEST_LEAD);
    concat(s.as_str(), user_text)
}

/// The marker lines of some files, one per file, each on a line of its own.
pub open spec fn file_lines(files: Seq<(Seq<char>, Seq<char>)>) -> Seq<char>
    decreases files.len(),
{
    if files.len() == 0 {
        Seq::empty()
    } else {
        file_lines(files.drop_last()) + NEWLINE@ + FILE_MARKER_PREFIX@ + " "@ + files.last().0
            + "]"@
    }
}

/// `n` image marker lines.
pub open spec fn image_lines(n: nat) -> Seq<char>
    decreases n,
{
    if n == 0 {
        Seq::empty()
    } else {
        image_lines((n - 1) as nat) + NEWLINE@ + IMAGE_MARKER@
    }
}

/// The stored form of a user message: the text, then one marker line per
/// file, one per image, and one for a screenshot.
pub open spec fn stored_message(
    user_text: Seq<char>,
    files: Seq<(Seq<char>, Seq<char>)>,
    images: nat,
    has_screenshot: bool,
) -> Seq<char> {
    user_text + file_lines(files) + image_lines(images) + if has_screenshot {
        NEWLINE@ + SCREENSHOT_MARKER@
    } else {
        Seq::empty()
    }
}

/// Build the stored form of a user message: the text plus one marker line
/// per attachment. The panel shows the markers as chips, and on later turns
/// they tell the model what came with the message.
pub fn compose_stored_user_message(
    user_text: &str,
    files: &[FileAttachment],
    images: &[String],
    has_screenshot: bool,
) -> (r: String)
    ensures
        r@ == stored_message(user_text@, files_view(files@), images@.len(), has_screenshot),
{
    let mut stored = user_text.to_owned();
    let ghost fv = files_view(files@);
    let mut i: usize = 0;
    while i < files.len()
        invariant
            i <= files@.len(),
            fv == files_view(files@),
            stored@ == user_text@ + file_lines(fv.take(i as int)),
        decreases files.len() - i,
    {
        let line = concat(NEWLINE, FILE_MARKER_PREFIX);
        let line = concat(line.as_str(), " ");
        let line = concat(line.as_str(), files[i].name.as_str());
        let line = concat(line.as_str(), "]");
        stored = concat(stored.as_str(), line.as_str());
        proof {
            assert(fv.take(i + 1).drop_last() =~= fv.take(i as int));
            assert(fv.take(i + 1).last() == files@[i as int]@);
        }
        i += 1;
    }
    proof {
        assert(fv.take(files@.len() as int) =~= fv);
    }
    let mut k: usize = 0;
    while k < images.len()
        invariant
            k <= images@.len(),
            stored@ == user_text@ + file_lines(fv) + image_lines(k as nat),
        decreases images.len() - k,
    {
        let line = concat(NEWLINE, IMAGE_MARKER);
        stored = concat(stored.as_str(), line.as_str());
        k += 1;
    }
    if has_screenshot {
        let line = concat(NEWLINE, SCREENSHOT_MARKER);
        stored = concat(stored.as_str(), line.as_str());
    }
    stored
}

/// The lines of `s`, as `str::lines` splits it: at each line feed, with a
/// carriage return before it removed, and without an empty last line after
/// a final line feed.
pub open spec fn line_state(s: Seq<char>) -> (Seq<Seq<char>>, Seq<char>)
    decreases s.len(),
{
    if s.len() == 0 {
        (Seq::empty(), Seq::empty())
    } else {
        let (done, cur) = line_state(s.drop_last());
        if s.last() == '\n' {
            (done.push(drop_cr(cur)), Seq::empty())
        } else {
            (done, cur.push(s.last()))
        }
    }
}

/// A line without the carriage return that ends it, if any.
pub open spec fn drop_cr(line: Seq<char>) -> Seq<char> {
    if line.len() > 0 && line.last() == '\r' {
        line.drop_last()
    } else {
        line
    }
}

/// The lines of `s`.
pub open spec fn lines(s: Seq<char>) -> Seq<Seq<char>> {
    let (done, cur) = line_state(s);
    if cur.len() > 0 {
        done.push(drop_cr(cur))
    } else {
        done
    }
}

/// A line that is an attachment marker: a screenshot or image marker, or a
/// file marker, once trimmed.
pub open spec fn is_marker_line(line: Seq<char>) -> bool {
    let t = trim_ws(line);
    t == SCREENSHOT_MARKER@ || t == IMAGE_MARKER@ || (t.len() >= FILE_MARKER_PREFIX@.len()
        && t.take(FILE_MARKER_PREFIX@.len() as int) == FILE_MARKER_PREFIX@ && t.len() > 0
        && t.last() == ']')
}

/// The lines that are not markers, joined with line feeds.
pub open spec fn kept_lines(ls: Seq<Seq<char>>) -> Seq<char>
    decreases ls.len(),
{
    if ls.len() == 0 {
        Seq::empty()
    } else {
        let prev = kept_lines(ls.drop_last());
        let had = kept_count(ls.drop_last()) > 0;
        if is_marker_line(ls.last()) {
            prev
        } else if had {
            prev + NEWLINE@ + ls.last()
        } else {
            ls.last()
        }
    }
}

/// How many lines are not markers.
pub open spec fn kept_count(ls: Seq<Seq<char>>) -> nat
    decreases ls.len(),
{
    if ls.len() == 0 {
        0
    } else if is_marker_line(ls.last()) {
        kept_count(ls.drop_last())
    } else {
        kept_count(ls.drop_last()) + 1
    }
}

/// With no line kept, nothing is kept.
proof fn lemma_nothing_kept(ls: Seq<Seq<char>>)
    requires
        kept_count(ls) == 0,
    ensures
        kept_lines(ls) == Seq::<char>::empty(),
    decreases ls.len(),
{
    if ls.len() > 0 {
        lemma_nothing_kept(ls.drop_last());
    }
}

/// Whether `s` starts with `prefix`.
fn starts_with_chars(s: &[char], prefix: &str) -> (r: bool)
    ensures
        r == (s@.len() >= prefix@.len() && s@.take(prefix@.len() as int) == prefix@),
{
    let p = chars_of(prefix);
    if p.len() > s.len() {
        return false;
    }
    let mut i: usize = 0;
    while i < p.len()
        invariant
            i <= p@.len() <= s@.len(),
            p@ == prefix@,
            forall|t: int| 0 <= t < i ==> s@[t] == p@[t],
        decreases p.len() - i,
    {
        if s[i] != p[i] {
            assert(s@.take(p@.len() as int)[i as int] != p@[i as int]);
            return false;
        }
        i += 1;
    }
    assert(s@.take(p@.len() as int) =~= p@);
    true
}

/// Decides `is_marker_line`.
fn marker_line(line: &Vec<char>) -> (r: bool)
    ensures
        r == is_marker_line(line@),
{
    let t = trim_chars(line.as_slice(), CharClass::Whitespace);
    let screenshot = chars_of(SCREENSHOT_MARKER);
    let image = chars_of(IMAGE_MARKER);
    if crate::autolearn::detect::chars_eq(t.as_slice(), screenshot.as_slice())
        || crate::autolearn::detect::chars_eq(t.as_slice(), image.as_slice()) {
        return true;
    }
    starts_with_chars(t.as_slice(), FILE_MARKER_PREFIX) && t.len() > 0 && t[t.len() - 1] == ']'
}

/// Strip attachment markers from a stored user message, leaving the text the
/// user typed or said: the lines that are not markers, joined with line
/// feeds, trimmed.
pub fn strip_markers(text: &str) -> (r: String)
    ensures
        r@ == trim_ws(kept_lines(lines(text@))),
{
    let c = chars_of(text);
    let mut done: Vec<Vec<char>> = Vec::new();
    let mut cur: Vec<char> = Vec::new();
    let mut i: usize = 0;
    while i < c.len()
        invariant
            i <= c@.len(),
            c@ == text@,
            (crate::text::views(done@), cur@) == line_state(c@.take(i as int)),
        decreases c.len() - i,
    {
        proof {
            assert(c@.take(i + 1).drop_last() =~= c@.take(i as int));
        }
        if c[i] == '\n' {
            let mut line = cur;
            if line.len() > 0 && line[line.len() - 1] == '\r' {
                line.pop();
            }
            let ghost before = crate::text::views(done@);
            let ghost lv = line@;
            done.push(line);
            cur = Vec::new();
            proof {
                assert(crate::text::views(done@) =~= before.push(lv));
            }
        } else {
            cur.push(c[i]);
        }
        i += 1;
    }
    proof {
        assert(c@.take(c@.len() as int) =~= c@);
    }
    if cur.len() > 0 {
        let mut line = cur;
        if line[line.len() - 1] == '\r' {
            line.pop();
        }
        let ghost before = crate::text::views(done@);
        let ghost lv = line@;
        done.push(line);
        proof {
            assert(crate::text::views(done@) =~= before.push(lv));
        }
    }
    let ghost ls = crate::text::views(done@);
    let mut out: Vec<char> = Vec::new();
    let mut kept: usize = 0;
    let mut k: usize = 0;
    while k < done.len()
        invariant
            k <= done@.len(),
            ls == crate::text::views(done@),
            out@ == kept_lines(ls.take(k as int)),
            kept as nat == kept_count(ls.take(k as int)),
            kept <= k,
        decreases done.len() - k,
    {
        proof {
            assert(ls.take(k + 1).drop_last() =~= ls.take(k as int));
            assert(ls.take(k + 1).last() == done@[k as int]@);
        }
        if !marker_line(&done[k]) {
            if kept > 0 {
                out.push('\n');
            }
            let mut j: usize = 0;
            let ghost base = out@;
            while j < done[k].len()
                invariant
                    k < done@.len(),
                    j <= done@[k as int]@.len(),
                    out@ == base + done@[k as int]@.take(j as int),
                decreases done@[k as int]@.len() - j,
            {
                out.push(done[k][j]);
                proof {
                    assert(done@[k as int]@.take(j + 1) =~= done@[k as int]@.take(j as int).push(
                        done@[k as int]@[j as int],
                    ));
                }
                j += 1;
            }
            proof {
                assert(done@[k as int]@.take(done@[k as int]@.len() as int) =~= done@[k as int]@);
                if kept == 0 {
                    lemma_nothing_kept(ls.take(k as int));
                    assert(out@ =~= done@[k as int]@);
                }
                if kept > 0 {
                    assert(out@ =~= kept_lines(ls.take(k as int)) + NEWLINE@ + done@[k as int]@) by {
                        reveal_strlit("\n");
                    }
                }
            }
            kept += 1;
        }
        k += 1;
    }
    proof {
        assert(ls.take(done@.len() as int) =~= ls);
    }
    let t = trim_chars(out.as_slice(), CharClass::Whitespace);
    string_from_chars(t.as_slice())
}

/// Put the screen capture before the user's attached images, keep the
/// images' order, and keep at most `limit` of them in all.
pub open spec fn ordered_visuals<T>(screenshot: Option<T>, images: Seq<T>, limit: nat) -> Seq<T> {
    let all = match screenshot {
        Some(s) => seq![s] + images,
        None => images,
    };
    if all.len() <= limit {
        all
    } else {
        all.take(limit as int)
    }
}

/// The visual inputs of a turn, in the order both thumbnails and requests
/// use: the screen capture first, then the images, capped at `limit`.
pub fn ordered_visual_inputs<'a, T>(
    screenshot: Option<&'a T>,
    images: &'a [T],
    limit: usize,
) -> (r: Vec<&'a T>)
    ensures
        r@ == ordered_visuals(
            match screenshot {
                Some(s) => Some(s),
                None => None,
            },
            images@.map_values(|x: T| &x),
            limit as nat,
        ),
{
    let ghost all = match screenshot {
        Some(s) => seq![s] + images@.map_values(|x: T| &x),
        None => images@.map_values(|x: T| &x),
    };
    let mut out: Vec<&'a T> = Vec::new();
    if limit == 0 {
        proof {
            assert(all.take(0) =~= out@);
        }
        return out;
    }
    match screenshot {
        Some(s) => {
            out.push(s);
        },
        None => {},
    }
    let mut i: usize = 0;
    while i < images.len() && out.len() < limit
        invariant
            i <= images@.len(),
            all == match screenshot {
                Some(s) => seq![s] + images@.map_values(|x: T| &x),
                None => images@.map_values(|x: T| &x),
            },
            out@.len() <= limit,
            out@ == all.take(out@.len() as int),
            out@.len() == i + if screenshot is Some {
                1int
            } else {
                0int
            },
        decreases images.len() - i,
    {
        let ghost before = out@;
        out.push(&images[i]);
        proof {
            let off = if screenshot is Some {
                1int
            } else {
                0int
            };
            assert(all[i + off] == &images@[i as int]);
            assert(out@ =~= all.take(out@.len() as int));
        }
        i += 1;
    }
    proof {
        if out@.len() < limit {
            assert(out@ =~= all);
        }
    }
    out
}


/// Most bytes of one attached file sent with a turn.
pub const FILE_CHAR_CAP: usize = 20_000;

/// Most bytes of all attached files of a turn together.
pub const FILES_TOTAL_CAP: usize = 40_000;

/// What starts the block of an attached file, before its name.
pub const ATTACHED_FILE_HEAD: &'static str = "\n\nAttached file: ";

/// After the name of a file that was cut short.
pub const TRUNCATED_NOTE: &'static str = " (truncated)";

/// Between a file's name and its content.
pub const FILE_OPEN: &'static str = "\n---\n";

/// After a file's content.
pub const FILE_CLOSE: &'static str = "\n---";

/// The first `n` characters of `s`, or all of it when it is shorter.
pub open spec fn prefix_chars(s: Seq<char>, n: int) -> Seq<char> {
    if n < s.len() {
        s.take(n)
    } else {
        s
    }
}

/// How much of the next file may be sent: its length in bytes, at most the
/// cap of one file and what is left of the budget.
pub open spec fn file_take(content: Seq<char>, budget: int) -> int {
    let a = byte_len(content);
    let b = if a < FILE_CHAR_CAP {
        a
    } else {
        FILE_CHAR_CAP as int
    };
    if b < budget {
        b
    } else {
        budget
    }
}

/// The block of one attached file: its name, marked when its content was
/// cut short, and the content sent.
pub open spec fn file_block(name: Seq<char>, full: Seq<char>, sent: Seq<char>) -> Seq<char> {
    ATTACHED_FILE_HEAD@ + name + (if byte_len(sent) < byte_len(full) {
        TRUNCATED_NOTE@
    } else {
        Seq::empty()
    }) + FILE_OPEN@ + sent + FILE_CLOSE@
}

/// The blocks of files `i..` with `budget` bytes left. Each file sends as
/// many characters as its byte allowance (`file_take`) counts, and uses up
/// the bytes they take; the first file with no allowance ends the list.
pub open spec fn files_preamble_from(
    files: Seq<(Seq<char>, Seq<char>)>,
    i: int,
    budget: int,
) -> Seq<char>
    decreases files.len() - i,
{
    if i < 0 || i >= files.len() {
        Seq::empty()
    } else {
        let f = files[i];
        let take = file_take(f.1, budget);
        if take <= 0 {
            Seq::empty()
        } else {
            let sent = prefix_chars(f.1, take);
            let left = if budget >= byte_len(sent) {
                budget - byte_len(sent)
            } else {
                0
            };
            file_block(f.0, f.1, sent) + files_preamble_from(files, i + 1, left)
        }
    }
}

/// The blocks of the files attached to a turn, within the caps.
pub open spec fn files_preamble(files: Seq<(Seq<char>, Seq<char>)>) -> Seq<char> {
    files_preamble_from(files, 0, FILES_TOTAL_CAP as int)
}

/// The blocks of the files attached to a turn, in order: each file's name
/// and as much of its content as the caps allow (`FILE_CHAR_CAP` for one
/// file, `FILES_TOTAL_CAP` for all), marked "(truncated)" when cut short.
pub fn attached_files_preamble(files: &[FileAttachment]) -> (r: String)
    ensures
        r@ == files_preamble(files_view(files@)),
{
    let ghost fv = files_view(files@);
    let ghost total = files_preamble(fv);
    let mut out = String::new();
    let mut budget: usize = FILES_TOTAL_CAP;
    let mut i: usize = 0;
    while i < files.len()
        invariant_except_break
            i <= files@.len(),
            fv == files_view(files@),
            out@ + files_preamble_from(fv, i as int, budget as int) == total,
        ensures
            out@ == total,
        decreases files.len() - i,
    {
        let content = &files[i].content;
        let full = content.as_str().len();
        let mut take = if full < FILE_CHAR_CAP {
            full
        } else {
            FILE_CHAR_CAP
        };
        if budget < take {
            take = budget;
        }
        assert(take == file_take(fv[i as int].1, budget as int));
        if take == 0 {
            assert(files_preamble_from(fv, i as int, budget as int) =~= Seq::<char>::empty());
            assert(out@ =~= total);
            break;
        }
        let chars = chars_of(content.as_str());
        let n = if take < chars.len() {
            take
        } else {
            chars.len()
        };
        let sent = string_from_chars(slice_to_vec(chars.as_slice(), 0, n).as_slice());
        proof {
            assert(sent@ =~= prefix_chars(fv[i as int].1, take as int));
        }
        let used = sent.as_str().len();
        let truncated = used < full;
        let head = concat(ATTACHED_FILE_HEAD, files[i].name.as_str());
        let head = if truncated {
            concat(head.as_str(), TRUNCATED_NOTE)
        } else {
            head
        };
        let block = concat(concat(concat(head.as_str(), FILE_OPEN).as_str(), sent.as_str()).as_str(), FILE_CLOSE);
        let ghost rest_before = files_preamble_from(fv, i as int, budget as int);
        budget = if budget >= used {
            budget - used
        } else {
            0
        };
        proof {
            assert(block@ == file_block(fv[i as int].0, fv[i as int].1, sent@));
            assert(rest_before == block@ + files_preamble_from(fv, i + 1, budget as int));
            assert(out@ + block@ + files_preamble_from(fv, i + 1, budget as int) =~= out@ + (block@
                + files_preamble_from(fv, i + 1, budget as int)));
        }
        out = concat(out.as_str(), block.as_str());
        i += 1;
    }
    proof {
        if i >= files@.len() {
            assert(files_preamble_from(fv, i as int, budget as int) =~= Seq::<char>::empty());
            assert(out@ =~= total);
        }
    }
    out
}

/// The text of the user's message as sent: unchanged without files, else
/// the file blocks (leading whitespace removed), a blank line, and the
/// message.
pub open spec fn user_content_spec(files: Seq<(Seq<char>, Seq<char>)>, user_text: Seq<char>) -> Seq<
    char,
> {
    let p = files_preamble(files);
    if trim_ws(p).len() == 0 {
        user_text
    } else {
        trim_start_by(p, CharClass::Whitespace) + "\n\n"@ + user_text
    }
}

/// The user's message as sent with a turn: the attached files first, within
/// their caps, then the message.
pub fn compose_user_content(files: &[FileAttachment], user_text: &str) -> (r: String)
    ensures
        r@ == user_content_spec(files_view(files@), user_text@),
{
    let preamble = attached_files_preamble(files);
    let trimmed = trim(preamble.as_str());
    if trimmed.as_str().is_empty() {
        return user_text.to_string();
    }
    let chars = chars_of(preamble.as_str());
    let lead = lead_len(chars.as_slice(), CharClass::Whitespace);
    let rest = string_from_chars(slice_to_vec(chars.as_slice(), lead, chars.len()).as_slice());
    concat(concat(rest.as_str(), "\n\n").as_str(), user_text)
}

/// Lines joined with line feeds.
pub open spec fn joined(ls: Seq<Seq<char>>) -> Seq<char>
    decreases ls.len(),
{
    if ls.len() == 0 {
        Seq::empty()
    } else if ls.len() == 1 {
        ls[0]
    } else {
        joined(ls.drop_last()) + NEWLINE@ + ls.last()
    }
}

/// No carriage return in `s`.
pub open spec fn no_cr(s: Seq<char>) -> bool {
    forall|i: int| 0 <= i < s.len() ==> s[i] != '\r'
}

/// No line feed in `s`.
pub open spec fn no_lf(s: Seq<char>) -> bool {
    forall|i: int| 0 <= i < s.len() ==> s[i] != '\n'
}

/// The lines of `s` with the unfinished last one kept even when empty.
pub open spec fn all_lines(s: Seq<char>) -> Seq<Seq<char>> {
    line_state(s).0.push(line_state(s).1)
}

/// Without carriage returns, joining the lines of a text gives the text back.
proof fn lemma_lines_rejoin(s: Seq<char>)
    requires
        no_cr(s),
    ensures
        joined(all_lines(s)) == s,
        no_cr(line_state(s).1),
    decreases s.len(),
{
    reveal_strlit("\n");
    if s.len() > 0 {
        let p = s.drop_last();
        assert(s =~= p.push(s.last()));
        lemma_lines_rejoin(p);
        let done = line_state(p).0;
        let cur = line_state(p).1;
        assert(done.push(cur).drop_last() =~= done);
        if s.last() == '\n' {
            if cur.len() > 0 {
                assert(cur.last() == cur[cur.len() - 1]);
            }
            assert(drop_cr(cur) == cur);
            let n = done.push(cur).push(Seq::<char>::empty());
            assert(n.drop_last() =~= done.push(cur));
            assert(joined(n) =~= p + NEWLINE@ + Seq::<char>::empty());
        } else {
            let c = cur.push(s.last());
            assert(done.push(c).drop_last() =~= done);
            assert forall|i: int| 0 <= i < c.len() implies c[i] != '\r' by {
                if i < cur.len() {
                    assert(c[i] == cur[i]);
                }
            }
            if done.len() > 0 {
                assert(joined(done.push(c)) =~= (joined(done) + NEWLINE@ + cur).push(s.last()));
            }
        }
    }
}

/// Line feeds pushed into the unfinished line extend it.
proof fn lemma_line_state_append(s: Seq<char>, x: Seq<char>)
    requires
        no_lf(x),
    ensures
        line_state(s + x) == (line_state(s).0, line_state(s).1 + x),
    decreases x.len(),
{
    if x.len() == 0 {
        assert(s + x =~= s);
        assert(line_state(s).1 + x =~= line_state(s).1);
    } else {
        let x1 = x.drop_last();
        assert(no_lf(x1));
        lemma_line_state_append(s, x1);
        assert((s + x).drop_last() =~= s + x1);
        assert((s + x).last() == x[x.len() - 1]);
        assert(line_state(s).1 + x =~= (line_state(s).1 + x1).push(x.last()));
    }
}

/// A line feed then a line without one ends the unfinished line and starts
/// that one.
proof fn lemma_line_state_new_line(s: Seq<char>, m: Seq<char>)
    requires
        no_lf(m),
    ensures
        line_state(s + NEWLINE@ + m) == (
            line_state(s).0.push(drop_cr(line_state(s).1)),
            m,
        ),
{
    reveal_strlit("\n");
    let u = s + NEWLINE@;
    assert(u.drop_last() =~= s);
    assert(u.last() == '\n');
    lemma_line_state_append(u, m);
    assert(Seq::<char>::empty() + m =~= m);
    assert(s + NEWLINE@ + m =~= u + m);
}

/// A marker line as `compose_stored_user_message` writes it: no line feed,
/// ending in ']', and read back as a marker.
pub open spec fn written_marker(m: Seq<char>) -> bool {
    &&& no_lf(m)
    &&& m.len() > 0
    &&& m.last() == ']'
    &&& is_marker_line(m)
}

/// A line starting with '[' and ending with ']' is its own trimmed form.
proof fn lemma_bracketed_is_trimmed(m: Seq<char>)
    requires
        m.len() > 0,
        m[0] == '[',
        m.last() == ']',
    ensures
        trim_ws(m) == m,
{
    lemma_lead_is(m, CharClass::Whitespace, 0);
    assert(m.skip(0) =~= m);
    assert(m[m.len() - 1] == m.last());
    lemma_trail_is(m, CharClass::Whitespace, 0);
    assert(m.take(m.len() as int) =~= m);
}

/// The three kinds of marker lines are written markers.
proof fn lemma_markers_written(name: Seq<char>)
    requires
        no_lf(name),
    ensures
        written_marker(SCREENSHOT_MARKER@),
        written_marker(IMAGE_MARKER@),
        written_marker(FILE_MARKER_PREFIX@ + " "@ + name + "]"@),
{
    reveal_strlit("[screenshot attached]");
    reveal_strlit("[image attached]");
    reveal_strlit("[file attached:");
    reveal_strlit(" ");
    reveal_strlit("]");
    lemma_bracketed_is_trimmed(SCREENSHOT_MARKER@);
    lemma_bracketed_is_trimmed(IMAGE_MARKER@);
    let f = FILE_MARKER_PREFIX@ + " "@ + name + "]"@;
    assert(f[0] == '[');
    assert(f.last() == ']');
    lemma_bracketed_is_trimmed(f);
    assert(f.take(FILE_MARKER_PREFIX@.len() as int) =~= FILE_MARKER_PREFIX@);
    assert forall|i: int| 0 <= i < f.len() implies f[i] != '\n' by {
        if 16 <= i < 16 + name.len() {
            assert(f[i] == name[i - 16]);
        }
    }
}

/// The line state of a text followed by written markers: the lines of the
/// text, then marker lines, with a marker line unfinished.
pub open spec fn after_markers(st: (Seq<Seq<char>>, Seq<char>), first: Seq<Seq<char>>) -> bool {
    &&& st.0.len() >= first.len()
    &&& st.0.take(first.len() as int) == first
    &&& forall|i: int| first.len() <= i < st.0.len() ==> written_marker(#[trigger] st.0[i])
    &&& written_marker(st.1)
}

/// The lines of `t` as they stand once a line feed follows it.
pub open spec fn text_lines(t: Seq<char>) -> Seq<Seq<char>> {
    line_state(t).0.push(drop_cr(line_state(t).1))
}

/// `u` is `t`, or `t` followed by written marker lines.
pub open spec fn reached(u: Seq<char>, t: Seq<char>) -> bool {
    u == t || after_markers(line_state(u), text_lines(t))
}

/// One more written marker line keeps the text's lines and adds a marker.
proof fn lemma_marker_step(u: Seq<char>, t: Seq<char>, m: Seq<char>)
    requires
        reached(u, t),
        written_marker(m),
    ensures
        after_markers(line_state(u + NEWLINE@ + m), text_lines(t)),
{
    lemma_line_state_new_line(u, m);
    let first = text_lines(t);
    if u == t {
        assert(line_state(u + NEWLINE@ + m).0.take(first.len() as int) =~= first);
    } else {
        let st = line_state(u);
        assert(st.1.last() == ']');
        assert(drop_cr(st.1) == st.1);
        let d = st.0.push(st.1);
        assert(d.take(first.len() as int) =~= st.0.take(first.len() as int));
        assert forall|i: int| first.len() <= i < d.len() implies written_marker(#[trigger] d[i]) by {
            if i < st.0.len() {
                assert(d[i] == st.0[i]);
            }
        }
    }
}

/// File marker lines keep the text reached.
proof fn lemma_file_lines_reached(t: Seq<char>, files: Seq<(Seq<char>, Seq<char>)>)
    requires
        forall|j: int| 0 <= j < files.len() ==> no_lf(#[trigger] files[j].0),
    ensures
        reached(t + file_lines(files), t),
    decreases files.len(),
{
    reveal_strlit("\n");
    if files.len() == 0 {
        assert(t + file_lines(files) =~= t);
    } else {
        let rest = files.drop_last();
        assert forall|j: int| 0 <= j < rest.len() implies no_lf(#[trigger] rest[j].0) by {
            assert(rest[j] == files[j]);
        }
        lemma_file_lines_reached(t, rest);
        let name = files.last().0;
        assert(no_lf(files[files.len() - 1].0));
        lemma_markers_written(name);
        let m = FILE_MARKER_PREFIX@ + " "@ + name + "]"@;
        lemma_marker_step(t + file_lines(rest), t, m);
        assert(t + file_lines(files) =~= t + file_lines(rest) + NEWLINE@ + m);
    }
}

/// Image marker lines keep the text reached.
proof fn lemma_image_lines_reached(u: Seq<char>, t: Seq<char>, n: nat)
    requires
        reached(u, t),
    ensures
        reached(u + image_lines(n), t),
    decreases n,
{
    if n == 0 {
        assert(u + image_lines(n) =~= u);
    } else {
        lemma_image_lines_reached(u, t, (n - 1) as nat);
        lemma_markers_written(Seq::empty());
        lemma_marker_step(u + image_lines((n - 1) as nat), t, IMAGE_MARKER@);
        assert(u + image_lines(n) =~= u + image_lines((n - 1) as nat) + NEWLINE@ + IMAGE_MARKER@);
    }
}

/// Marker lines after the first lines leave what is kept unchanged.
proof fn lemma_markers_kept_nothing(ls: Seq<Seq<char>>, first: Seq<Seq<char>>)
    requires
        ls.len() >= first.len(),
        ls.take(first.len() as int) == first,
        forall|i: int| first.len() <= i < ls.len() ==> written_marker(#[trigger] ls[i]),
    ensures
        kept_lines(ls) == kept_lines(first),
        kept_count(ls) == kept_count(first),
    decreases ls.len(),
{
    if ls.len() == first.len() {
        assert(ls =~= first);
    } else {
        let p = ls.drop_last();
        assert(p.take(first.len() as int) =~= ls.take(first.len() as int));
        assert forall|i: int| first.len() <= i < p.len() implies written_marker(#[trigger] p[i]) by {
            assert(p[i] == ls[i]);
        }
        lemma_markers_kept_nothing(p, first);
        assert(written_marker(ls[ls.len() - 1]));
    }
}

/// Lines none of which is a marker are all kept, joined.
proof fn lemma_kept_without_markers(ls: Seq<Seq<char>>)
    requires
        forall|i: int| 0 <= i < ls.len() ==> !is_marker_line(#[trigger] ls[i]),
    ensures
        kept_lines(ls) == joined(ls),
        kept_count(ls) == ls.len(),
    decreases ls.len(),
{
    if ls.len() > 0 {
        let p = ls.drop_last();
        assert forall|i: int| 0 <= i < p.len() implies !is_marker_line(#[trigger] p[i]) by {
            assert(p[i] == ls[i]);
        }
        lemma_kept_without_markers(p);
        assert(!is_marker_line(ls[ls.len() - 1]));
        if ls.len() == 1 {
            assert(ls.last() == ls[0]);
        }
    }
}

/// Stripping the markers from a stored user message gives back the text
/// the user typed, trimmed: when the text has no carriage return, none of
/// its lines is itself a marker, and no file name has a line feed.
pub proof fn lemma_strip_markers_undoes_compose(
    text: Seq<char>,
    files: Seq<(Seq<char>, Seq<char>)>,
    images: nat,
    has_screenshot: bool,
)
    requires
        no_cr(text),
        forall|i: int| 0 <= i < lines(text).len() ==> !is_marker_line(#[trigger] lines(text)[i]),
        forall|j: int| 0 <= j < files.len() ==> no_lf(#[trigger] files[j].0),
    ensures
        trim_ws(kept_lines(lines(stored_message(text, files, images, has_screenshot)))) == trim_ws(
            text,
        ),
{
    reveal_strlit("\n");
    reveal_strlit("[screenshot attached]");
    reveal_strlit("[image attached]");
    reveal_strlit("[file attached:");
    lemma_lines_rejoin(text);
    let st = line_state(text);
    let first = text_lines(text);
    assert(drop_cr(st.1) == st.1) by {
        if st.1.len() > 0 {
            assert(st.1.last() == st.1[st.1.len() - 1]);
        }
    }
    assert(first == all_lines(text));
    // No line of the text is a marker, the unfinished one included.
    assert forall|i: int| 0 <= i < first.len() implies !is_marker_line(#[trigger] first[i]) by {
        if st.1.len() > 0 {
            assert(lines(text) == first);
        } else if i < st.0.len() {
            assert(lines(text) == st.0);
            assert(first[i] == st.0[i]);
        } else {
            assert(first[i] == Seq::<char>::empty());
            assert(trim_ws(Seq::<char>::empty()) =~= Seq::<char>::empty());
        }
    }
    lemma_kept_without_markers(first);
    lemma_file_lines_reached(text, files);
    let u1 = text + file_lines(files);
    lemma_image_lines_reached(u1, text, images);
    let u2 = u1 + image_lines(images);
    let stored = stored_message(text, files, images, has_screenshot);
    if has_screenshot {
        lemma_markers_written(Seq::empty());
        lemma_marker_step(u2, text, SCREENSHOT_MARKER@);
        assert(stored =~= u2 + NEWLINE@ + SCREENSHOT_MARKER@);
    } else {
        assert(stored =~= u2);
    }
    assert(reached(stored, text));
    if stored == text {
        // Nothing was attached: the text's own lines.
        if st.1.len() > 0 {
            assert(lines(text) == first);
        } else {
            assert(lines(text) == st.0);
            assert(first.drop_last() =~= st.0);
            if st.0.len() > 0 {
                lemma_kept_without_markers(st.0);
                assert(joined(first) =~= joined(st.0) + NEWLINE@);
                assert(joined(st.0) + NEWLINE@ =~= joined(st.0).push('\n'));
                crate::text::lemma_trim_ws_push_whitespace(joined(st.0), '\n');
            } else {
                assert(kept_lines(st.0) =~= Seq::<char>::empty());
                assert(joined(first) =~= Seq::<char>::empty());
            }
        }
    } else {
        let fs = line_state(stored);
        assert(after_markers(fs, first));
        assert(lines(stored) == fs.0.push(fs.1));
        let ls = fs.0.push(fs.1);
        assert(ls.take(first.len() as int) =~= fs.0.take(first.len() as int));
        assert forall|i: int| first.len() <= i < ls.len() implies written_marker(#[trigger] ls[i]) by {
            if i < fs.0.len() {
                assert(ls[i] == fs.0[i]);
            }
        }
        lemma_markers_kept_nothing(ls, first);
    }
}

} // verus!
