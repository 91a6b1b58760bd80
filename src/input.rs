use vstd::prelude::*;
use crate::actions::{Action, ActionMapper, mapper_action};
use crate::string_map::StringMap;
use crate::text::{char_string, is_prefix_of, strings_view};

verus! {

/// A key press as the digester sees it.
pub enum Key {
    Char(char),
    Esc,
    Backspace,
    Enter,
    Other,
}

/// The outcome of feeding one key to the digester.
pub enum InputReaderDigestResult {
    DigestSuccessful,
    DigestError(String),
}

/// Accumulates key presses: leading digits form a count, the rest form the verb tokens.
pub struct InputReader {
    pub modifier_key_sequence: String,
    pub verb_key_sequence: Vec<String>,
}

pub open spec fn is_decimal_digit(c: char) -> bool {
    '0' <= c && c <= '9'
}

/// The token that a key adds to the verb sequence; `None` for keys that are ignored.
pub open spec fn key_token(key: Key) -> Option<Seq<char>> {
    match key {
        Key::Char(c) => Some(seq![c]),
        Key::Esc => Some("ESC"@),
        Key::Backspace => Some("BACKSPACE"@),
        Key::Enter => Some("ENTER"@),
        Key::Other => None,
    }
}

/// A digit typed after a verb, where digits count as a modifier.
pub open spec fn is_misplaced_modifier(verbs: Seq<Seq<char>>, key: Key, force_verb: bool) -> bool {
    match key {
        Key::Char(c) => !force_verb && is_decimal_digit(c) && verbs.len() > 0,
        _ => false,
    }
}

/// What digesting `key` makes of the two buffers.
pub open spec fn digested(modifier: Seq<char>, verbs: Seq<Seq<char>>, key: Key, force_verb: bool) -> (
    Seq<char>,
    Seq<Seq<char>>,
) {
    match key {
        Key::Char(c) => if !force_verb && is_decimal_digit(c) {
            if verbs.len() > 0 {
                (Seq::empty(), Seq::empty())
            } else {
                (modifier.push(c), verbs)
            }
        } else {
            (modifier, verbs.push(seq![c]))
        },
        _ => match key_token(key) {
            Some(t) => (modifier, verbs.push(t)),
            None => (modifier, verbs),
        },
    }
}

/// The tokens joined by single spaces.
pub open spec fn joined_tokens(tokens: Seq<Seq<char>>) -> Seq<char>
    decreases tokens.len(),
{
    if tokens.len() == 0 {
        Seq::empty()
    } else {
        let head = joined_tokens(tokens.drop_last());
        if head.len() == 0 {
            tokens.last()
        } else {
            head + seq![' '] + tokens.last()
        }
    }
}

pub open spec fn digit_value(c: char) -> int {
    (c as u32) - ('0' as u32)
}

/// The number that a string of decimal digits spells.
pub open spec fn digits_value(s: Seq<char>) -> int
    decreases s.len(),
{
    if s.len() == 0 {
        0
    } else {
        digits_value(s.drop_last()) * 10 + digit_value(s.last())
    }
}

pub open spec fn all_decimal_digits(s: Seq<char>) -> bool {
    forall|i: int| 0 <= i < s.len() ==> is_decimal_digit(#[trigger] s[i])
}

/// What reading `s` as an unsigned count gives: an optional `+`, then at least one decimal
/// digit, and a value that fits in `usize`.
pub open spec fn parsed_count(s: Seq<char>) -> Option<usize> {
    let d = if s.len() > 0 && s[0] == '+' {
        s.drop_first()
    } else {
        s
    };
    if d.len() > 0 && all_decimal_digits(d) && digits_value(d) <= usize::MAX {
        Some(digits_value(d) as usize)
    } else {
        None
    }
}

proof fn lemma_digits_value_grows(s: Seq<char>, i: int)
    requires
        0 <= i <= s.len(),
        all_decimal_digits(s),
    ensures
        0 <= digits_value(s.subrange(0, i)) <= digits_value(s),
    decreases s.len() - i,
{
    if i < s.len() {
        lemma_digits_value_grows(s, i + 1);
        let t = s.subrange(0, i + 1);
        assert(t.drop_last() =~= s.subrange(0, i));
        assert(is_decimal_digit(t.last()));
        lemma_digits_value_nonneg(s.subrange(0, i));
    } else {
        assert(s.subrange(0, i) =~= s);
        lemma_digits_value_nonneg(s);
    }
}

proof fn lemma_digits_value_nonneg(s: Seq<char>)
    requires
        all_decimal_digits(s),
    ensures
        digits_value(s) >= 0,
    decreases s.len(),
{
    if s.len() > 0 {
        lemma_digits_value_nonneg(s.drop_last());
        assert(is_decimal_digit(s.last()));
    }
}

/// Reads a count written in decimal, as `str::parse::<usize>` does.
pub fn parse_count(s: &str) -> (r: Option<usize>)
    ensures
        r == parsed_count(s@),
{
    let n = s.unicode_len();
    let mut start: usize = 0;
    if n > 0 && s.get_char(0) == '+' {
        start = 1;
    }
    let ghost d = if s@.len() > 0 && s@[0] == '+' {
        s@.drop_first()
    } else {
        s@
    };
    assert(d =~= s@.subrange(start as int, n as int));
    if start >= n {
        return None;
    }
    let mut value: usize = 0;
    let mut i: usize = start;
    while i < n
        invariant
            n == s@.len(),
            start <= i <= n,
            d == s@.subrange(start as int, n as int),
            d == (if s@.len() > 0 && s@[0] == '+' {
                s@.drop_first()
            } else {
                s@
            }),
            all_decimal_digits(s@.subrange(start as int, i as int)),
            value as int == digits_value(s@.subrange(start as int, i as int)),
        decreases n - i,
    {
        let c = s.get_char(i);
        let ghost pre = s@.subrange(start as int, i as int);
        let ghost next = s@.subrange(start as int, i + 1);
        assert(next.drop_last() =~= pre);
        assert(next.last() == c);
        assert(d.subrange(0, i + 1 - start) =~= next);
        assert(d[i - start] == c);
        if !('0' <= c && c <= '9') {
            assert(!is_decimal_digit(d[i - start]));
            return None;
        }
        let digit = (c as u32 - '0' as u32) as usize;
        assert(all_decimal_digits(next));
        match value.checked_mul(10) {
            None => {
                proof {
                    lemma_none_when_too_big(d, next, (i + 1 - start) as int);
                }
                return None;
            },
            Some(v) => match v.checked_add(digit) {
                None => {
                    proof {
                        lemma_none_when_too_big(d, next, (i + 1 - start) as int);
                    }
                    return None;
                },
                Some(w) => {
                    value = w;
                },
            },
        }
        i += 1;
    }
    assert(s@.subrange(start as int, n as int) =~= d);
    Some(value)
}

proof fn lemma_none_when_too_big(d: Seq<char>, prefix: Seq<char>, i: int)
    requires
        0 <= i <= d.len(),
        prefix == d.subrange(0, i),
        digits_value(prefix) > usize::MAX,
    ensures
        !(all_decimal_digits(d) && digits_value(d) <= usize::MAX),
{
    if all_decimal_digits(d) {
        lemma_digits_value_grows(d, i);
    }
}

impl InputReader {
    pub fn new() -> (r: InputReader)
        ensures
            r.modifier_key_sequence@.len() == 0,
            r.verb_key_sequence@.len() == 0,
    {
        InputReader { modifier_key_sequence: String::new(), verb_key_sequence: Vec::new() }
    }

    /// The verb tokens joined by spaces: the key looked up in the binding tables.
    pub fn get_human_friendly_verb_key_sequence(&self) -> (r: String)
        ensures
            r@ == joined_tokens(strings_view(self.verb_key_sequence@)),
    {
        let ghost tokens = strings_view(self.verb_key_sequence@);
        let mut acc = String::new();
        let mut i: usize = 0;
        while i < self.verb_key_sequence.len()
            invariant
                i <= self.verb_key_sequence@.len(),
                tokens == strings_view(self.verb_key_sequence@),
                acc@ == joined_tokens(tokens.subrange(0, i as int)),
            decreases self.verb_key_sequence@.len() - i,
        {
            let ghost sub = tokens.subrange(0, i + 1);
            assert(sub.drop_last() =~= tokens.subrange(0, i as int));
            assert(sub.last() == self.verb_key_sequence@[i as int]@);
            if acc.as_str().unicode_len() == 0 {
                acc = self.verb_key_sequence[i].clone();
            } else {
                proof {
                    reveal_strlit(" ");
                }
                acc.append(" ");
                acc.append(self.verb_key_sequence[i].as_str());
            }
            i += 1;
        }
        assert(tokens.subrange(0, tokens.len() as int) =~= tokens);
        acc
    }

    /// Empties both buffers.
    pub fn clear(&mut self)
        ensures
            final(self).modifier_key_sequence@.len() == 0,
            final(self).verb_key_sequence@.len() == 0,
    {
        self.modifier_key_sequence = String::new();
        self.verb_key_sequence = Vec::new();
    }

    /// Feeds one key. With `force_pushing_as_verb` off, a digit extends the count, and a
    /// digit after a verb empties both buffers and is refused; every other key adds its token.
    pub fn digest(&mut self, key: Key, force_pushing_as_verb: bool) -> (r: InputReaderDigestResult)
        ensures
            (final(self).modifier_key_sequence@, strings_view(final(self).verb_key_sequence@))
                == digested(
                old(self).modifier_key_sequence@,
                strings_view(old(self).verb_key_sequence@),
                key,
                force_pushing_as_verb,
            ),
            is_misplaced_modifier(strings_view(old(self).verb_key_sequence@), key, force_pushing_as_verb)
                ==> (r matches InputReaderDigestResult::DigestError(m) && m@
                == "Can not have a verb modifier after an verb"@),
            !is_misplaced_modifier(strings_view(old(self).verb_key_sequence@), key, force_pushing_as_verb)
                ==> r is DigestSuccessful,
    {
        let ghost old_verbs = strings_view(self.verb_key_sequence@);
        match key {
            Key::Char(c) => {
                if !force_pushing_as_verb && '0' <= c && c <= '9' {
                    if self.verb_key_sequence.len() > 0 {
                        self.clear();
                        assert(strings_view(self.verb_key_sequence@) =~= Seq::<Seq<char>>::empty());
                        assert(self.modifier_key_sequence@ =~= Seq::<char>::empty());
                        return InputReaderDigestResult::DigestError(
                            String::from_str("Can not have a verb modifier after an verb"),
                        );
                    }
                    crate::text::push_char(&mut self.modifier_key_sequence, c);
                } else {
                    self.verb_key_sequence.push(char_string(c));
                    assert(strings_view(self.verb_key_sequence@) =~= old_verbs.push(seq![c]));
                }
            },
            Key::Esc => {
                self.verb_key_sequence.push(String::from_str("ESC"));
                assert(strings_view(self.verb_key_sequence@) =~= old_verbs.push("ESC"@));
            },
            Key::Backspace => {
                self.verb_key_sequence.push(String::from_str("BACKSPACE"));
                assert(strings_view(self.verb_key_sequence@) =~= old_verbs.push("BACKSPACE"@));
            },
            Key::Enter => {
                self.verb_key_sequence.push(String::from_str("ENTER"));
                assert(strings_view(self.verb_key_sequence@) =~= old_verbs.push("ENTER"@));
            },
            Key::Other => {},
        }
        InputReaderDigestResult::DigestSuccessful
    }

    /// Whether some key of one of the tables starts with `current_sequence`, so that more
    /// input could still complete a binding.
    pub fn check_incomplete_commands(&self, current_sequence: &str, possiblities: Vec<&StringMap>) -> (r:
        bool)
        ensures
            r == exists|i: int, k: Seq<char>|
                0 <= i < possiblities@.len() && #[trigger] possiblities@[i]@.contains_key(k)
                    && is_prefix_of(current_sequence@, k),
    {
        let mut i: usize = 0;
        while i < possiblities.len()
            invariant
                i <= possiblities@.len(),
                forall|j: int, k: Seq<char>|
                    0 <= j < i && #[trigger] possiblities@[j]@.contains_key(k) ==> !is_prefix_of(
                        current_sequence@,
                        k,
                    ),
            decreases possiblities@.len() - i,
        {
            if possiblities[i].has_key_starting_with(current_sequence) {
                return true;
            }
            i += 1;
        }
        false
    }

    /// The action that the verb sequence is bound to in `key_to_action_mapping`, as
    /// `action_to_closure_mapping` resolves its name.
    pub fn get_closure_by_key_bindings(
        &self,
        key_to_action_mapping: &StringMap,
        action_to_closure_mapping: &ActionMapper,
    ) -> (r: Option<Action>)
        ensures
            r == (if key_to_action_mapping@.contains_key(joined_tokens(strings_view(self.verb_key_sequence@))) {
                mapper_action(
                    *action_to_closure_mapping,
                    key_to_action_mapping@[joined_tokens(strings_view(self.verb_key_sequence@))],
                )
            } else {
                None
            }),
    {
        let key = self.get_human_friendly_verb_key_sequence();
        match key_to_action_mapping.get(key.as_str()) {
            Some(action_name) => action_to_closure_mapping.find_action(action_name),
            None => None,
        }
    }

    /// The count typed before the verb, if any.
    pub fn modifier(&self) -> (r: Option<usize>)
        ensures
            r == parsed_count(self.modifier_key_sequence@),
    {
        parse_count(self.modifier_key_sequence.as_str())
    }
}

} // verus!
