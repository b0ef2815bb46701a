//! JSON pointers: references to a value within a JSON document.

use vstd::prelude::*;
use vstd::string::StringSliceAdditionalSpecFns;
use vstd::utf8::encode_utf8;

use crate::decimal::{are_ascii_digits, ascii_digit, ascii_digits, digit_values, digits_value};
use crate::json::{find_member, member_position, JsonValue};
use crate::text::{text_chars, texts};

verus! {

/// A text is not a JSON pointer.
#[derive(Clone, Copy, Debug, PartialEq, Eq, Structural)]
pub struct InvalidJsonPointer;

/// Replaces `~0` by `~` and `~1` by `/`. No other character may follow a `~`.
pub open spec fn decoded_token(token: Seq<char>) -> Option<Seq<char>>
    decreases token.len(),
{
    if token.len() == 0 {
        Some(Seq::empty())
    } else if token[0] != '~' {
        match decoded_token(token.skip(1)) {
            Some(rest) => Some(seq![token[0]] + rest),
            None => None,
        }
    } else if token.len() > 1 && token[1] == '0' {
        match decoded_token(token.skip(2)) {
            Some(rest) => Some(seq!['~'] + rest),
            None => None,
        }
    } else if token.len() > 1 && token[1] == '1' {
        match decoded_token(token.skip(2)) {
            Some(rest) => Some(seq!['/'] + rest),
            None => None,
        }
    } else {
        None
    }
}

/// How many characters from `from` on stand before the next `/`, counted from
/// the start.
pub open spec fn token_end(text: Seq<char>, from: int) -> int
    decreases text.len() - from,
{
    if from < 0 || from >= text.len() || text[from] == '/' {
        from
    } else {
        token_end(text, from + 1)
    }
}

/// A token ends within the text, at its end or at a `/`.
pub proof fn lemma_token_end(text: Seq<char>, from: int)
    requires
        0 <= from <= text.len(),
    ensures
        from <= token_end(text, from) <= text.len(),
        token_end(text, from) < text.len() ==> text[token_end(text, from)] == '/',
        forall|i: int| from <= i < token_end(text, from) ==> text[i] != '/',
    decreases text.len() - from,
{
    if from < text.len() && text[from] != '/' {
        lemma_token_end(text, from + 1);
    }
}

/// The decoded tokens of a text that starts behind a `/`.
pub open spec fn tokens_after_slash(text: Seq<char>) -> Option<Seq<Seq<char>>>
    decreases text.len(),
{
    proof {
        lemma_token_end(text, 0);
    }
    let end = token_end(text, 0);
    match decoded_token(text.take(end)) {
        None => None,
        Some(token) => if end >= text.len() {
            Some(seq![token])
        } else {
            match tokens_after_slash(text.skip(end + 1)) {
                None => None,
                Some(rest) => Some(seq![token] + rest),
            }
        },
    }
}

/// The tokens of a JSON pointer: none for the empty text, else those that each
/// `/` starts.
pub open spec fn pointer_tokens(authored: Seq<char>) -> Option<Seq<Seq<char>>> {
    if authored.len() == 0 {
        Some(Seq::empty())
    } else if authored[0] != '/' {
        None
    } else {
        tokens_after_slash(authored.skip(1))
    }
}

/// The array position that a token names: decimal digits without leading zeros.
pub open spec fn array_position(token: Seq<u8>) -> Option<int> {
    if token.len() > 0 && ascii_digits(token) && (token.len() == 1 || token[0] != '0' as u8) {
        Some(digits_value(digit_values(token)) as int)
    } else {
        None
    }
}

/// The value that tokens select, starting from `value`.
pub open spec fn selected(value: JsonValue, tokens: Seq<Seq<char>>) -> Option<JsonValue>
    decreases tokens.len(),
{
    if tokens.len() == 0 {
        Some(value)
    } else {
        match value {
            JsonValue::Object(members) => match member_position(members@, tokens[0]) {
                Some(position) => selected(members@[position].1, tokens.skip(1)),
                None => None,
            },
            JsonValue::Array(items) => match array_position(encode_utf8(tokens[0])) {
                Some(position) => if position < items@.len() {
                    selected(items@[position], tokens.skip(1))
                } else {
                    None
                },
                None => None,
            },
            _ => None,
        }
    }
}

/// A JSON pointer, with its tokens decoded.
#[derive(Debug, PartialEq, Eq)]
pub struct JsonPointer {
    authored: String,
    tokens: Vec<String>,
}

/// What a JSON pointer selects from a document.
#[derive(Debug, PartialEq, Eq)]
pub enum JsonSelection<'a> {
    Selected(&'a JsonValue),
    Missing,
}

/// Decodes one token of a pointer.
pub fn decode_pointer_token(token: &[char]) -> (decoded: Result<String, InvalidJsonPointer>)
    ensures
        match decoded_token(token@) {
            Some(text) => decoded matches Ok(string) && string@ == text,
            None => decoded is Err,
        },
{
    let mut decoded: String = String::new();
    let mut index: usize = 0;
    assert(token@.skip(0) =~= token@);
    while index < token.len()
        invariant
            index <= token@.len(),
            decoded_token(token@) == (match decoded_token(token@.skip(index as int)) {
                Some(rest) => Some(decoded@ + rest),
                None => None,
            }),
        decreases token@.len() - index,
    {
        let ghost before = decoded@;
        let ghost rest = token@.skip(index as int);
        let character: char = token[index];
        if character != '~' {
            decoded.push(character);
            index = index + 1;
            proof {
                assert(rest.skip(1) =~= token@.skip(index as int));
                if let Some(tail) = decoded_token(token@.skip(index as int)) {
                    assert(before + (seq![character] + tail) =~= decoded@ + tail);
                }
            }
        } else {
            if index + 1 >= token.len() {
                return Err(InvalidJsonPointer);
            }
            let escaped: char = token[index + 1];
            if escaped == '0' {
                decoded.push('~');
            } else if escaped == '1' {
                decoded.push('/');
            } else {
                return Err(InvalidJsonPointer);
            }
            index = index + 2;
            proof {
                assert(rest.skip(2) =~= token@.skip(index as int));
                if let Some(tail) = decoded_token(token@.skip(index as int)) {
                    assert(before + (seq![decoded@.last()] + tail) =~= decoded@ + tail);
                }
            }
        }
    }
    assert(token@.skip(index as int) =~= Seq::<char>::empty());
    assert(decoded@ + Seq::<char>::empty() =~= decoded@);
    Ok(decoded)
}

/// The array position that a token names, if an array can be that long.
pub fn parse_array_index(token: &str) -> (index: Option<usize>)
    ensures
        match index {
            Some(position) => array_position(token.spec_bytes()) == Some(position as int),
            None => array_position(token.spec_bytes()) matches Some(position) ==> position
                > usize::MAX,
        },
{
    let bytes: &[u8] = token.as_bytes();
    if bytes.len() == 0 || !are_ascii_digits(bytes) || (bytes.len() > 1 && bytes[0] == '0' as u8) {
        return None;
    }
    let mut value: usize = 0;
    let mut index: usize = 0;
    assert(digit_values(bytes@.take(0)) =~= Seq::<u8>::empty());
    while index < bytes.len()
        invariant
            index <= bytes@.len(),
            ascii_digits(bytes@),
            value == digits_value(digit_values(bytes@.take(index as int))),
            array_position(token.spec_bytes()) == Some(digits_value(digit_values(bytes@)) as int),
        decreases bytes@.len() - index,
    {
        assert(ascii_digit(bytes@[index as int]));
        let digit: usize = (bytes[index] - '0' as u8) as usize;
        proof {
            let known = digit_values(bytes@.take(index + 1));
            assert(known.drop_last() =~= digit_values(bytes@.take(index as int)));
            assert(known.last() == digit);
            lemma_prefix_value(digit_values(bytes@), index + 1);
            assert(digit_values(bytes@).take(index + 1) =~= known);
        }
        if value > (usize::MAX - digit) / 10 {
            return None;
        }
        value = 10 * value + digit;
        index = index + 1;
    }
    assert(bytes@.take(index as int) =~= bytes@);
    Some(value)
}

/// More digits never make a smaller number.
proof fn lemma_prefix_value(digits: Seq<u8>, length: int)
    requires
        0 <= length <= digits.len(),
    ensures
        digits_value(digits.take(length)) <= digits_value(digits),
    decreases digits.len() - length,
{
    if length == digits.len() {
        assert(digits.take(length) =~= digits);
    } else {
        assert(digits.take(length + 1).drop_last() =~= digits.take(length));
        lemma_prefix_value(digits, length + 1);
    }
}

impl JsonPointer {
    /// The text that the pointer was read from.
    pub closed spec fn source(&self) -> Seq<char> {
        self.authored@
    }

    /// The decoded tokens.
    pub closed spec fn path(&self) -> Seq<Seq<char>> {
        texts(self.tokens@)
    }

    #[verifier::type_invariant]
    spec fn consistent(&self) -> bool {
        pointer_tokens(self.authored@) == Some(texts(self.tokens@))
    }

    /// Reads a JSON pointer.
    pub fn parse(authored: &str) -> (parsed: Result<JsonPointer, InvalidJsonPointer>)
        ensures
            match pointer_tokens(authored@) {
                Some(tokens) => parsed matches Ok(pointer) && pointer.source() == authored@
                    && pointer.path() == tokens,
                None => parsed is Err,
            },
    {
        let chars: Vec<char> = text_chars(authored);
        let mut tokens: Vec<String> = Vec::new();
        assert(texts(tokens@) =~= Seq::<Seq<char>>::empty());
        if chars.len() == 0 {
            return Ok(JsonPointer { authored: authored.to_owned(), tokens });
        }
        if chars[0] != '/' {
            return Err(InvalidJsonPointer);
        }
        let mut position: usize = 1;
        let ghost whole = tokens_after_slash(authored@.skip(1));
        proof {
            if let Some(rest) = whole {
                assert(texts(tokens@) + rest =~= rest);
            }
        }
        loop
            invariant
                chars@ == authored@,
                1 <= position <= chars@.len(),
                whole == pointer_tokens(authored@),
                whole == (match tokens_after_slash(chars@.skip(position as int)) {
                    Some(rest) => Some(texts(tokens@) + rest),
                    None => None,
                }),
            decreases chars@.len() - position,
        {
            let ghost text = chars@.skip(position as int);
            let ghost known = texts(tokens@);
            let mut end: usize = position;
            while end < chars.len() && chars[end] != '/'
                invariant
                    position <= end <= chars@.len(),
                    text == chars@.skip(position as int),
                    token_end(text, 0) == token_end(text, end - position),
                ensures
                    position <= end <= chars@.len(),
                    token_end(text, 0) == end - position,
                decreases chars@.len() - end,
            {
                end = end + 1;
            }
            let token: &[char] = &chars.as_slice()[position..end];
            assert(token@ =~= text.take(end - position));
            let decoded: String = decode_pointer_token(token)?;
            let ghost decoded_text = decoded@;
            let ghost before = tokens@;
            tokens.push(decoded);
            assert(texts(tokens@) =~= known.push(decoded_text));
            if end == chars.len() {
                assert(known + seq![decoded_text] =~= texts(tokens@));
                return Ok(JsonPointer { authored: authored.to_owned(), tokens });
            }
            proof {
                assert(text.skip(end - position + 1) =~= chars@.skip(end + 1));
                if let Some(rest) = tokens_after_slash(chars@.skip(end + 1)) {
                    assert(known + (seq![decoded_text] + rest) =~= texts(tokens@) + rest);
                }
            }
            position = end + 1;
        }
    }

    /// The text that the pointer was read from.
    pub fn authored(&self) -> (authored: &str)
        ensures
            authored@ == self.source(),
    {
        self.authored.as_str()
    }

    /// The decoded tokens.
    pub fn tokens(&self) -> (tokens: &Vec<String>)
        ensures
            texts(tokens@) == self.path(),
    {
        &self.tokens
    }

    /// Selects from a document.
    pub fn select<'a>(&self, value: &'a JsonValue) -> (selection: JsonSelection<'a>)
        ensures
            match selected(*value, self.path()) {
                Some(found) => selection == JsonSelection::Selected(&found),
                None => selection is Missing,
            },
    {
        let mut current: &'a JsonValue = value;
        let mut index: usize = 0;
        assert(self.path().skip(0) =~= self.path());
        while index < self.tokens.len()
            invariant
                index <= self.tokens@.len(),
                self.path() == texts(self.tokens@),
                selected(*value, self.path()) == selected(
                    *current,
                    self.path().skip(index as int),
                ),
            decreases self.tokens@.len() - index,
        {
            let token: &str = self.tokens[index].as_str();
            proof {
                let rest = self.path().skip(index as int);
                assert(rest[0] == token@);
                assert(rest.skip(1) =~= self.path().skip(index + 1));
            }
            match current {
                JsonValue::Object(members) => {
                    match find_member(members, token) {
                        Some(position) => {
                            current = &members[position].1;
                        },
                        None => {
                            return JsonSelection::Missing;
                        },
                    }
                },
                JsonValue::Array(items) => {
                    let length: usize = items.len();
                    match parse_array_index(token) {
                        Some(position) => {
                            if position >= length {
                                return JsonSelection::Missing;
                            }
                            current = &items[position];
                        },
                        None => {
                            return JsonSelection::Missing;
                        },
                    }
                },
                _ => {
                    return JsonSelection::Missing;
                },
            }
            index = index + 1;
        }
        assert(self.path().skip(index as int) =~= Seq::<Seq<char>>::empty());
        JsonSelection::Selected(current)
    }
}

/// Replaces `~` by `~0` and `/` by `~1`.
pub open spec fn escaped_token(token: Seq<char>) -> Seq<char>
    decreases token.len(),
{
    if token.len() == 0 {
        Seq::empty()
    } else {
        (if token[0] == '~' {
            seq!['~', '0']
        } else if token[0] == '/' {
            seq!['~', '1']
        } else {
            seq![token[0]]
        }) + escaped_token(token.skip(1))
    }
}

/// The pointer of some tokens.
pub open spec fn pointer_text(tokens: Seq<Seq<char>>) -> Seq<char>
    decreases tokens.len(),
{
    if tokens.len() == 0 {
        Seq::empty()
    } else {
        seq!['/'] + escaped_token(tokens[0]) + pointer_text(tokens.skip(1))
    }
}

proof fn lemma_escaped_token(token: Seq<char>)
    ensures
        decoded_token(escaped_token(token)) == Some(token),
        forall|i: int| 0 <= i < escaped_token(token).len() ==> escaped_token(token)[i] != '/',
    decreases token.len(),
{
    if token.len() == 0 {
        assert(escaped_token(token) =~= token);
        assert(token =~= Seq::<char>::empty());
    } else {
        let rest = token.skip(1);
        lemma_escaped_token(rest);
        let escaped = escaped_token(token);
        if token[0] == '~' || token[0] == '/' {
            assert(escaped.skip(2) =~= escaped_token(rest));
        } else {
            assert(escaped.skip(1) =~= escaped_token(rest));
        }
        assert(seq![token[0]] + rest =~= token);
    }
}

proof fn lemma_token_end_is(text: Seq<char>, from: int, end: int)
    requires
        0 <= from <= end <= text.len(),
        forall|i: int| from <= i < end ==> text[i] != '/',
        end < text.len() ==> text[end] == '/',
    ensures
        token_end(text, from) == end,
    decreases end - from,
{
    if from < end {
        lemma_token_end_is(text, from + 1, end);
    }
}

/// Reading the pointer that was written for some tokens gives them back.
pub proof fn law_pointer_reads_back(tokens: Seq<Seq<char>>)
    ensures
        pointer_tokens(pointer_text(tokens)) == Some(tokens),
    decreases tokens.len(),
{
    let text = pointer_text(tokens);
    if tokens.len() == 0 {
        assert(tokens =~= Seq::<Seq<char>>::empty());
    } else {
        let escaped = escaped_token(tokens[0]);
        let rest = tokens.skip(1);
        let following = pointer_text(rest);
        law_pointer_reads_back(rest);
        lemma_escaped_token(tokens[0]);
        let behind = text.skip(1);
        assert(behind =~= escaped + following);
        let end = escaped.len() as int;
        assert(following.len() > 0 ==> following[0] == '/');
        assert forall|i: int| 0 <= i < end implies behind[i] != '/' by {
            assert(behind[i] == escaped[i]);
        }
        lemma_token_end_is(behind, 0, end);
        assert(behind.take(end) =~= escaped);
        if rest.len() > 0 {
            assert(behind.skip(end + 1) =~= following.skip(1));
            assert(seq![tokens[0]] + rest =~= tokens);
        } else {
            assert(seq![tokens[0]] =~= tokens);
        }
    }
}

/// A token without `/` that can be read is what its text escapes to.
proof fn lemma_decoded_token(token: Seq<char>)
    requires
        decoded_token(token) is Some,
        forall|i: int| 0 <= i < token.len() ==> token[i] != '/',
    ensures
        escaped_token(decoded_token(token)->Some_0) == token,
    decreases token.len(),
{
    if token.len() == 0 {
        assert(escaped_token(Seq::<char>::empty()) =~= token);
    } else {
        let decoded = decoded_token(token)->Some_0;
        let width = if token[0] == '~' {
            2int
        } else {
            1int
        };
        let tail = token.skip(width);
        assert forall|i: int| 0 <= i < tail.len() implies tail[i] != '/' by {
            assert(tail[i] == token[i + width]);
        }
        lemma_decoded_token(tail);
        assert(decoded.skip(1) =~= decoded_token(tail)->Some_0);
        assert(escaped_token(decoded) =~= token.take(width) + tail);
        assert(token.take(width) + tail =~= token);
    }
}

/// The text behind a `/` is what its tokens escape to.
proof fn lemma_tokens_after_slash(text: Seq<char>)
    requires
        tokens_after_slash(text) is Some,
    ensures
        pointer_text(tokens_after_slash(text)->Some_0) == seq!['/'] + text,
    decreases text.len(),
{
    lemma_token_end(text, 0);
    let end = token_end(text, 0);
    let tokens = tokens_after_slash(text)->Some_0;
    let first = text.take(end);
    assert forall|i: int| 0 <= i < first.len() implies first[i] != '/' by {
        assert(first[i] == text[i]);
    }
    lemma_decoded_token(first);
    if end >= text.len() {
        assert(first =~= text);
        assert(tokens.skip(1) =~= Seq::<Seq<char>>::empty());
        assert(pointer_text(tokens.skip(1)) =~= Seq::<char>::empty());
        assert(pointer_text(tokens) =~= seq!['/'] + text);
    } else {
        let rest = text.skip(end + 1);
        lemma_tokens_after_slash(rest);
        assert(tokens.skip(1) =~= tokens_after_slash(rest)->Some_0);
        assert(pointer_text(tokens) =~= seq!['/'] + first + (seq!['/'] + rest));
        assert(seq!['/'] + first + (seq!['/'] + rest) =~= seq!['/'] + text);
    }
}

/// A pointer that can be read is the one that is written for its tokens.
pub proof fn law_pointer_is_its_escaped_tokens(authored: Seq<char>)
    requires
        pointer_tokens(authored) is Some,
    ensures
        pointer_text(pointer_tokens(authored)->Some_0) == authored,
{
    if authored.len() == 0 {
        assert(pointer_text(Seq::<Seq<char>>::empty()) =~= authored);
    } else {
        lemma_tokens_after_slash(authored.skip(1));
        assert(seq!['/'] + authored.skip(1) =~= authored);
    }
}

/// Selecting with the tokens of two pointers, one behind the other, selects with
/// the second from what the first selects.
pub proof fn law_selection_composes(
    value: JsonValue,
    first: Seq<Seq<char>>,
    second: Seq<Seq<char>>,
)
    ensures
        selected(value, first + second) == (match selected(value, first) {
            Some(found) => selected(found, second),
            None => None,
        }),
    decreases first.len(),
{
    if first.len() == 0 {
        assert(first + second =~= second);
    } else {
        assert((first + second).skip(1) =~= first.skip(1) + second);
        assert((first + second)[0] == first[0]);
        match value {
            JsonValue::Object(members) => {
                if let Some(position) = member_position(members@, first[0]) {
                    law_selection_composes(members@[position].1, first.skip(1), second);
                }
            },
            JsonValue::Array(items) => {
                if let Some(position) = array_position(encode_utf8(first[0])) {
                    if position < items@.len() {
                        law_selection_composes(items@[position], first.skip(1), second);
                    }
                }
            },
            _ => {},
        }
    }
}

} // verus!
