//! What the first turn of an agent is given: the message, then its attachments.

use vstd::prelude::*;
use vstd::utf8::{decode_utf8, encode_utf8, valid_utf8};

use crate::agent::{AgentFailureCause, AgentHarnessSetupStage};
use crate::json::JsonValue;
use crate::path::{is_entry_of, stands_in};
use crate::text::{decimal_text, push_decimal_text, push_text, text_chars, utf8_text};

verus! {

/// Whether a character is white space.
pub open spec fn white_space(character: char) -> bool {
    ||| 0x09 <= character as u32 <= 0x0d
    ||| character as u32 == 0x20
    ||| character as u32 == 0x85
    ||| character as u32 == 0xa0
    ||| character as u32 == 0x1680
    ||| 0x2000 <= character as u32 <= 0x200a
    ||| character as u32 == 0x2028
    ||| character as u32 == 0x2029
    ||| character as u32 == 0x202f
    ||| character as u32 == 0x205f
    ||| character as u32 == 0x3000
}

/// Whether a character is white space.
pub fn is_white_space(character: char) -> (white: bool)
    ensures
        white == white_space(character),
{
    let code: u32 = character as u32;
    (0x09 <= code && code <= 0x0d) || code == 0x20 || code == 0x85 || code == 0xa0 || code == 0x1680
        || (0x2000 <= code && code <= 0x200a) || code == 0x2028 || code == 0x2029 || code == 0x202f
        || code == 0x205f || code == 0x3000
}

/// How many characters stand before the first `;`.
pub open spec fn before_semicolon(text: Seq<char>, from: int) -> int
    decreases text.len() - from,
{
    if from < 0 || from >= text.len() || text[from] == ';' {
        from
    } else {
        before_semicolon(text, from + 1)
    }
}

/// The text without the white space that starts it.
pub open spec fn trimmed_start(text: Seq<char>) -> Seq<char>
    decreases text.len(),
{
    if text.len() > 0 && white_space(text[0]) {
        trimmed_start(text.skip(1))
    } else {
        text
    }
}

/// The text without the white space that ends it.
pub open spec fn trimmed_end(text: Seq<char>) -> Seq<char>
    decreases text.len(),
{
    if text.len() > 0 && white_space(text.last()) {
        trimmed_end(text.drop_last())
    } else {
        text
    }
}

/// The type and subtype of a media type: what stands before its parameters,
/// without white space around it.
pub open spec fn base_media_type(media_type: Seq<char>) -> Seq<char> {
    trimmed_end(trimmed_start(media_type.take(before_semicolon(media_type, 0))))
}

/// An ASCII letter in lowercase; any other character as it is.
pub open spec fn ascii_lowercase(character: char) -> char {
    if 'A' as u32 <= character as u32 <= 'Z' as u32 {
        (character as u32 + 32) as char
    } else {
        character
    }
}

/// Whether two texts are the same but for the case of ASCII letters.
pub open spec fn same_ignoring_case(left: Seq<char>, right: Seq<char>) -> bool {
    left.len() == right.len() && forall|i: int|
        0 <= i < left.len() ==> ascii_lowercase(#[trigger] left[i]) == ascii_lowercase(right[i])
}

/// Whether a media type is one of text: `text/` with a subtype, or JSON.
pub open spec fn text_media(media_type: Seq<char>) -> bool {
    let base = base_media_type(media_type);
    ||| base.len() > 5 && same_ignoring_case(base.take(5), "text/"@)
    ||| same_ignoring_case(base, "application/json"@)
}

/// Whether a media type is one of images that an agent takes as they are.
pub open spec fn image_media(media_type: Seq<char>) -> bool {
    let base = base_media_type(media_type);
    same_ignoring_case(base, "image/png"@) || same_ignoring_case(base, "image/jpeg"@)
}

/// The number of an attachment in six digits, or more where it has more.
pub open spec fn attachment_identity(index: nat) -> Seq<char> {
    let digits = decimal_text(index);
    zeros(6 - digits.len()) + digits
}

/// That many zeros; none for a negative number.
pub open spec fn zeros(count: int) -> Seq<char> {
    Seq::new(
        if count < 0 {
            0
        } else {
            count as nat
        },
        |i: int| '0',
    )
}

/// What is known of a staged file: whether it is a regular file, its permissions
/// and its size.
#[derive(Clone, Copy, Debug, PartialEq, Eq, Structural)]
pub struct StagedFile {
    pub regular: bool,
    pub mode: u32,
    pub bytes: u64,
}

/// An attachment that was staged for an agent. The content is there where the
/// media type is one of text and the file could be read.
#[derive(Debug)]
pub struct StagedAttachment {
    pub path: Vec<u8>,
    pub media_type: String,
    pub file: Option<StagedFile>,
    pub content: Option<Vec<u8>>,
}

/// The item of a turn that is text.
pub open spec fn text_item(item: JsonValue, text: Seq<char>) -> bool {
    item matches JsonValue::Object(members) && members@.len() == 2 && members@[0].0@ == "type"@
        && (members@[0].1 matches JsonValue::String(kind) && kind@ == "text"@) && members@[1].0@
        == "text"@ && (members@[1].1 matches JsonValue::String(content) && content@ == text)
}

/// The item of a turn that is an image in a file.
pub open spec fn image_item(item: JsonValue, path: Seq<char>) -> bool {
    item matches JsonValue::Object(members) && members@.len() == 2 && members@[0].0@ == "type"@
        && (members@[0].1 matches JsonValue::String(kind) && kind@ == "localImage"@)
        && members@[1].0@ == "path"@ && (members@[1].1 matches JsonValue::String(content)
        && content@ == path)
}

/// What an attachment is given as.
pub enum AttachmentForm {
    /// Its content.
    Content(Seq<char>),
    /// An image in a file.
    Image(Seq<char>),
    /// A notice of where it is.
    Notice(Seq<char>),
}

/// What an attachment is given as, if it can be: text by its content, if that is
/// UTF-8, images as they are, and everything else by a notice.
pub open spec fn attachment_form(
    path: Seq<u8>,
    media_type: Seq<char>,
    content: Option<Seq<u8>>,
    expected_bytes: int,
    identity: Seq<char>,
) -> Option<AttachmentForm> {
    let readable = content matches Some(bytes) && bytes.len() == expected_bytes;
    if text_media(media_type) && !readable {
        None
    } else if text_media(media_type) && valid_utf8(content->Some_0) {
        Some(
            AttachmentForm::Content(
                "Scherzo attachment "@ + identity + " ("@ + media_type + ") follows:\n"@
                    + decode_utf8(content->Some_0),
            ),
        )
    } else if !valid_utf8(path) {
        None
    } else if image_media(media_type) {
        Some(AttachmentForm::Image(decode_utf8(path)))
    } else {
        Some(
            AttachmentForm::Notice(
                "Scherzo attachment "@ + identity + " has media type "@ + media_type
                    + " and is available to runner tools at "@ + decode_utf8(path) + "."@,
            ),
        )
    }
}

/// Whether an item gives an attachment in that form.
pub open spec fn item_has_form(item: JsonValue, form: AttachmentForm) -> bool {
    match form {
        AttachmentForm::Content(text) => text_item(item, text),
        AttachmentForm::Image(path) => image_item(item, path),
        AttachmentForm::Notice(text) => text_item(item, text),
    }
}

/// The bytes of a content that may be there.
pub open spec fn optional_content(content: Option<Vec<u8>>) -> Option<Seq<u8>> {
    match content {
        Some(bytes) => Some(bytes@),
        None => None,
    }
}

/// Whether a file is regular and its owner may read it and nobody may do anything
/// else.
pub open spec fn sealed(file: StagedFile) -> bool {
    file.regular && file.mode & 0o377 == 0
}

/// The size of the first `count` attachments together.
pub open spec fn total_bytes(attachments: Seq<StagedAttachment>, count: nat) -> int
    decreases count,
{
    if count == 0 {
        0
    } else {
        total_bytes(attachments, (count - 1) as nat) + (match attachments[count - 1].file {
            Some(file) => file.bytes as int,
            None => 0,
        })
    }
}

/// What the attachment of that number is given as, if it stands where it must,
/// is sealed, and does not exceed the size of all attachments.
pub open spec fn admitted_form(
    attachments: Seq<StagedAttachment>,
    index: int,
    root: Seq<u8>,
    maximum_bytes: int,
) -> Option<AttachmentForm> {
    let attachment = attachments[index];
    if !stands_in(
        attachment.path@,
        root,
        encode_utf8(attachment_identity(index as nat)),
    ) {
        None
    } else {
        match attachment.file {
            None => None,
            Some(file) => if !sealed(file) || total_bytes(attachments, (index + 1) as nat)
                > maximum_bytes {
                None
            } else {
                attachment_form(
                    attachment.path@,
                    attachment.media_type@,
                    optional_content(attachment.content),
                    file.bytes as int,
                    attachment_identity(index as nat),
                )
            },
        }
    }
}

/// A launch that failed.
pub open spec fn failed_launch() -> AgentFailureCause {
    AgentFailureCause::HarnessSetupFailed { stage: AgentHarnessSetupStage::ExecutableLaunch }
}

/// A launch that failed.
#[verifier::when_used_as_spec(failed_launch)]
pub fn launch_failure() -> (cause: AgentFailureCause)
    ensures
        cause == failed_launch(),
{
    AgentFailureCause::HarnessSetupFailed { stage: AgentHarnessSetupStage::ExecutableLaunch }
}

/// An ASCII letter in lowercase; any other character as it is.
fn to_ascii_lowercase(character: char) -> (lowercase: char)
    ensures
        lowercase == ascii_lowercase(character),
{
    let code: u32 = character as u32;
    if 'A' as u32 <= code && code <= 'Z' as u32 {
        (code as u8 + 32) as char
    } else {
        character
    }
}

fn equals_ignoring_case(left: &[char], right: &str) -> (same: bool)
    ensures
        same == same_ignoring_case(left@, right@),
{
    let expected: Vec<char> = text_chars(right);
    if left.len() != expected.len() {
        return false;
    }
    let mut index: usize = 0;
    while index < left.len()
        invariant
            index <= left@.len(),
            left@.len() == expected@.len(),
            expected@ == right@,
            forall|i: int|
                0 <= i < index ==> ascii_lowercase(#[trigger] left@[i]) == ascii_lowercase(
                    right@[i],
                ),
        decreases left@.len() - index,
    {
        if to_ascii_lowercase(left[index]) != to_ascii_lowercase(expected[index]) {
            assert(ascii_lowercase(left@[index as int]) != ascii_lowercase(right@[index as int]));
            return false;
        }
        index = index + 1;
    }
    true
}

/// The type and subtype of a media type.
fn base_of_media_type(media_type: &str) -> (base: Vec<char>)
    ensures
        base@ == base_media_type(media_type@),
{
    let chars: Vec<char> = text_chars(media_type);
    let mut end: usize = 0;
    while end < chars.len() && chars[end] != ';'
        invariant
            end <= chars@.len(),
            before_semicolon(chars@, 0) == before_semicolon(chars@, end as int),
        ensures
            end <= chars@.len(),
            before_semicolon(chars@, 0) == end,
        decreases chars@.len() - end,
    {
        end = end + 1;
    }
    let ghost front = chars@.take(end as int);
    let mut start: usize = 0;
    assert(front.skip(0) =~= front);
    while start < end && is_white_space(chars[start])
        invariant
            start <= end <= chars@.len(),
            front == chars@.take(end as int),
            trimmed_start(front) == trimmed_start(front.skip(start as int)),
        ensures
            start <= end,
            trimmed_start(front) == front.skip(start as int),
        decreases end - start,
    {
        assert(front.skip(start as int).skip(1) =~= front.skip(start + 1));
        start = start + 1;
    }
    let ghost body = front.skip(start as int);
    let mut stop: usize = end;
    assert(body.take(stop - start) =~= body);
    while start < stop && is_white_space(chars[stop - 1])
        invariant
            start <= stop <= end <= chars@.len(),
            front == chars@.take(end as int),
            body == front.skip(start as int),
            trimmed_end(body) == trimmed_end(body.take(stop - start)),
        ensures
            start <= stop <= end,
            trimmed_end(body) == body.take(stop - start),
        decreases stop - start,
    {
        proof {
            let kept = body.take(stop - start);
            assert(kept.last() == chars@[stop - 1]);
            assert(kept.drop_last() =~= body.take(stop - start - 1));
        }
        stop = stop - 1;
    }
    let mut base: Vec<char> = Vec::new();
    let mut index: usize = start;
    while index < stop
        invariant
            start <= index <= stop <= chars@.len(),
            base@ == chars@.subrange(start as int, index as int),
        decreases stop - index,
    {
        base.push(chars[index]);
        assert(base@ =~= chars@.subrange(start as int, index + 1));
        index = index + 1;
    }
    assert(base@ =~= body.take(stop - start));
    base
}

/// Whether a media type is one of text.
pub fn is_text_media(media_type: &str) -> (text: bool)
    ensures
        text == text_media(media_type@),
{
    let base: Vec<char> = base_of_media_type(media_type);
    if base.len() > 5 {
        let start: &[char] = &base.as_slice()[0..5];
        assert(start@ =~= base@.take(5));
        if equals_ignoring_case(start, "text/") {
            return true;
        }
    }
    equals_ignoring_case(base.as_slice(), "application/json")
}

/// Whether a media type is one of images that an agent takes as they are.
pub fn is_image_media(media_type: &str) -> (image: bool)
    ensures
        image == image_media(media_type@),
{
    let base: Vec<char> = base_of_media_type(media_type);
    equals_ignoring_case(base.as_slice(), "image/png") || equals_ignoring_case(
        base.as_slice(),
        "image/jpeg",
    )
}

/// The number of an attachment in six digits, or more where it has more.
pub fn identity_of_attachment(index: usize) -> (identity: String)
    ensures
        identity@ == attachment_identity(index as nat),
{
    let mut digits: String = String::new();
    push_decimal_text(&mut digits, index as u64);
    let count: usize = text_chars(digits.as_str()).len();
    let mut identity: String = String::new();
    assert(digits@ =~= decimal_text(index as nat));
    let mut filled: usize = count;
    while filled < 6
        invariant
            count <= filled,
            filled <= 6 || filled == count,
            identity@ == zeros(filled - count),
        decreases 6 - filled,
    {
        identity.push('0');
        assert(identity@ =~= zeros(filled + 1 - count));
        filled = filled + 1;
    }
    assert(identity@ =~= zeros(6 - digits@.len()));
    push_text(&mut identity, digits.as_str());
    identity
}

/// An item of a turn: its kind, and what it holds under its own name.
fn turn_item(kind: &str, name: &str, content: String) -> (item: JsonValue)
    ensures
        item matches JsonValue::Object(members) && members@.len() == 2 && members@[0].0@ == "type"@
            && (members@[0].1 matches JsonValue::String(text) && text@ == kind@) && members@[1].0@
            == name@ && (members@[1].1 matches JsonValue::String(text) && text@ == content@),
{
    let mut members: Vec<(String, JsonValue)> = Vec::new();
    members.push(("type".to_owned(), JsonValue::String(kind.to_owned())));
    members.push((name.to_owned(), JsonValue::String(content)));
    JsonValue::Object(members)
}

/// The item that gives an attachment.
pub fn attachment_input(
    attachment: &StagedAttachment,
    identity: &str,
    expected_bytes: u64,
) -> (outcome: Result<JsonValue, AgentFailureCause>)
    ensures
        match attachment_form(
            attachment.path@,
            attachment.media_type@,
            optional_content(attachment.content),
            expected_bytes as int,
            identity@,
        ) {
            Some(form) => outcome matches Ok(item) && item_has_form(item, form),
            None => outcome matches Err(cause) && cause == failed_launch(),
        },
{
    let media_type: &str = attachment.media_type.as_str();
    if is_text_media(media_type) {
        match &attachment.content {
            None => {
                return Err(launch_failure());
            },
            Some(bytes) => {
                if bytes.len() as u64 != expected_bytes {
                    return Err(launch_failure());
                }
                if let Some(content) = utf8_text(bytes.as_slice()) {
                    proof {
                        vstd::utf8::encode_utf8_decode_utf8(content@);
                    }
                    let mut text: String = "Scherzo attachment ".to_owned();
                    push_text(&mut text, identity);
                    push_text(&mut text, " (");
                    push_text(&mut text, media_type);
                    push_text(&mut text, ") follows:\n");
                    push_text(&mut text, content);
                    return Ok(turn_item("text", "text", text));
                }
            },
        }
    }
    let path: &str = match utf8_text(attachment.path.as_slice()) {
        Some(path) => path,
        None => {
            return Err(launch_failure());
        },
    };
    proof {
        vstd::utf8::encode_utf8_decode_utf8(path@);
    }
    if is_image_media(media_type) {
        return Ok(turn_item("localImage", "path", path.to_owned()));
    }
    let mut text: String = "Scherzo attachment ".to_owned();
    push_text(&mut text, identity);
    push_text(&mut text, " has media type ");
    push_text(&mut text, media_type);
    push_text(&mut text, " and is available to runner tools at ");
    push_text(&mut text, path);
    push_text(&mut text, ".");
    Ok(turn_item("text", "text", text))
}

/// Whether every attachment can be given, and there are not too many.
pub open spec fn turn_admitted(
    attachments: Seq<StagedAttachment>,
    root: Seq<u8>,
    maximum_attachments: int,
    maximum_bytes: int,
) -> bool {
    &&& attachments.len() <= maximum_attachments
    &&& forall|i: int|
        0 <= i < attachments.len() ==> #[trigger] admitted_form(
            attachments,
            i,
            root,
            maximum_bytes,
        ) is Some
}

/// The first turn: the message, then every attachment in order.
pub fn initial_turn_input(
    message: &str,
    attachments: &Vec<StagedAttachment>,
    attachment_root: &[u8],
    maximum_attachments: usize,
    maximum_attachment_bytes: u64,
) -> (outcome: Result<Vec<JsonValue>, AgentFailureCause>)
    ensures
        match outcome {
            Ok(items) => turn_admitted(
                attachments@,
                attachment_root@,
                maximum_attachments as int,
                maximum_attachment_bytes as int,
            ) && items@.len() == attachments@.len() + 1 && text_item(items@[0], message@)
                && forall|i: int|
                0 <= i < attachments@.len() ==> item_has_form(
                    items@[i + 1],
                    (#[trigger] admitted_form(
                        attachments@,
                        i,
                        attachment_root@,
                        maximum_attachment_bytes as int,
                    ))->Some_0,
                ),
            Err(cause) => cause == failed_launch() && !turn_admitted(
                attachments@,
                attachment_root@,
                maximum_attachments as int,
                maximum_attachment_bytes as int,
            ),
        },
{
    if attachments.len() > maximum_attachments {
        return Err(launch_failure());
    }
    let mut items: Vec<JsonValue> = Vec::new();
    items.push(turn_item("text", "text", message.to_owned()));
    let mut total: u64 = 0;
    let mut index: usize = 0;
    while index < attachments.len()
        invariant
            index <= attachments@.len(),
            attachments@.len() <= maximum_attachments,
            items@.len() == index + 1,
            text_item(items@[0], message@),
            total == total_bytes(attachments@, index as nat),
            forall|i: int|
                0 <= i < index ==> (#[trigger] admitted_form(
                    attachments@,
                    i,
                    attachment_root@,
                    maximum_attachment_bytes as int,
                ) matches Some(form) && item_has_form(items@[i + 1], form)),
        decreases attachments@.len() - index,
    {
        let attachment: &StagedAttachment = &attachments[index];
        let identity: String = identity_of_attachment(index);
        let ghost form = admitted_form(
            attachments@,
            index as int,
            attachment_root@,
            maximum_attachment_bytes as int,
        );
        if !is_entry_of(
            attachment.path.as_slice(),
            attachment_root,
            identity.as_str().as_bytes(),
        ) {
            assert(form is None);
            return Err(launch_failure());
        }
        let file: StagedFile = match attachment.file {
            Some(file) => file,
            None => {
                assert(form is None);
                return Err(launch_failure());
            },
        };
        if !file.regular || file.mode & 0o377 != 0 {
            assert(form is None);
            return Err(launch_failure());
        }
        if total > maximum_attachment_bytes || file.bytes > maximum_attachment_bytes - total {
            assert(form is None);
            return Err(launch_failure());
        }
        total = total + file.bytes;
        match attachment_input(attachment, identity.as_str(), file.bytes) {
            Ok(item) => {
                assert(form is Some);
                items.push(item);
            },
            Err(_) => {
                assert(form is None);
                return Err(launch_failure());
            },
        }
        index = index + 1;
    }
    Ok(items)
}

} // verus!
