//! What the summary service is asked and what is read from its answer:
//! the prompt, the first text of a response, the key in a configuration
//! text, and a stand-in for the service that answers from a list.

use crate::text::{
    chars_of, run_end, run_start, skip_run, skip_run_back, text_of, trim_bounds, trim_hi,
    trim_lo, CharClass,
};
use vstd::prelude::*;
use vstd::string::StringExecFns;

verus! {

/// One part of a candidate's content.
#[derive(Debug, Clone)]
pub struct ContentPart {
    pub text: Option<String>,
}

/// The content of a candidate.
#[derive(Debug, Clone)]
pub struct CandidateContent {
    pub parts: Vec<ContentPart>,
}

/// One candidate answer.
#[derive(Debug, Clone)]
pub struct Candidate {
    pub content: Option<CandidateContent>,
}

/// The response of the service.
#[derive(Debug, Clone)]
pub struct GenerateResponse {
    pub candidates: Vec<Candidate>,
}

/// The index of the first candidate, at or after `i`, that has content.
pub open spec fn first_with_content(candidates: Seq<Candidate>, i: int) -> Option<int>
    decreases candidates.len() - i,
{
    if i < 0 || i >= candidates.len() {
        None
    } else if candidates[i].content is Some {
        Some(i)
    } else {
        first_with_content(candidates, i + 1)
    }
}

/// The first text among the parts at or after `i`.
pub open spec fn first_text(parts: Seq<ContentPart>, i: int) -> Option<Seq<char>>
    decreases parts.len() - i,
{
    if i < 0 || i >= parts.len() {
        None
    } else {
        match parts[i].text {
            Some(t) => Some(t@),
            None => first_text(parts, i + 1),
        }
    }
}

/// The text that a response is read as: the first text of the first
/// candidate that has content. Later candidates are not looked at.
pub open spec fn primary_text_of(candidates: Seq<Candidate>) -> Option<Seq<char>> {
    match first_with_content(candidates, 0) {
        Some(i) => first_text(candidates[i].content->0.parts@, 0),
        None => None,
    }
}

impl GenerateResponse {
    /// The first text of the first candidate that has content.
    pub fn primary_text(&self) -> (r: Option<String>)
        ensures
            crate::parser::opt_view(r) == primary_text_of(self.candidates@),
    {
        let mut i: usize = 0;
        while i < self.candidates.len()
            invariant
                i <= self.candidates.len(),
                first_with_content(self.candidates@, 0) == first_with_content(
                    self.candidates@,
                    i as int,
                ),
            decreases self.candidates.len() - i,
        {
            if let Some(content) = &self.candidates[i].content {
                assert(self.candidates@[i as int].content == Some(*content));
                let mut k: usize = 0;
                while k < content.parts.len()
                    invariant
                        i < self.candidates.len(),
                        k <= content.parts.len(),
                        primary_text_of(self.candidates@) == first_text(content.parts@, 0),
                        first_text(content.parts@, 0) == first_text(content.parts@, k as int),
                    decreases content.parts.len() - k,
                {
                    if let Some(text) = &content.parts[k].text {
                        assert(content.parts@[k as int].text == Some(*text));
                        return Some(text.clone());
                    }
                    k += 1;
                }
                return None;
            }
            i += 1;
        }
        None
    }
}

/// The prompt that goes to the service: the instructions, then the data
/// between two marker lines.
pub open spec fn prompt_of(instructions: Seq<char>, json_text: Seq<char>) -> Seq<char> {
    instructions + "\n\n--- BEGIN PARSER JSON ---\n"@ + json_text + "\n--- END PARSER JSON ---"@
}

/// Puts the instructions and the data together into one prompt.
pub fn compose_prompt(instructions: &str, json_text: &str) -> (prompt: String)
    ensures
        prompt@ == prompt_of(instructions@, json_text@),
{
    let mut prompt = instructions.to_owned();
    prompt.append("\n\n--- BEGIN PARSER JSON ---\n");
    prompt.append(json_text);
    prompt.append("\n--- END PARSER JSON ---");
    prompt
}

/// A stand-in for the service: it hands out the responses it was given,
/// first in first out, and echoes the instructions once it has none left.
#[derive(Debug, Clone)]
pub struct MockGeminiClient {
    pub responses: Vec<String>,
}

impl MockGeminiClient {
    /// A stand-in that will hand out `responses` in their order.
    pub fn with_responses(responses: Vec<String>) -> (client: MockGeminiClient)
        ensures
            client.responses == responses,
    {
        MockGeminiClient { responses }
    }

    /// The next response: the first one left, which is then used up, or
    /// `MOCK_RESPONSE::` and the instructions where none is left.
    pub fn generate_section(&mut self, instructions: &str) -> (section: String)
        ensures
            old(self).responses@.len() == 0 ==> section@ == "MOCK_RESPONSE::"@ + instructions@
                && final(self).responses@ == old(self).responses@,
            old(self).responses@.len() > 0 ==> section == old(self).responses@[0]
                && final(self).responses@ == old(self).responses@.drop_first(),
    {
        if self.responses.len() == 0 {
            let mut section = "MOCK_RESPONSE::".to_owned();
            section.append(instructions);
            section
        } else {
            let section = self.responses.remove(0);
            assert(self.responses@ =~= old(self).responses@.drop_first());
            section
        }
    }
}

/// Whether `key:` stands at `a` in `s`, below `b`.
pub open spec fn key_label_at(s: Seq<char>, a: int, b: int) -> bool {
    0 <= a && a + 4 <= b <= s.len() && s[a] == 'k' && s[a + 1] == 'e' && s[a + 2] == 'y' && s[a
        + 3] == ':'
}

/// The bounds of the value of the first line of `s[lo..hi]` that starts
/// with `key:` once the white space around it is dropped: what follows
/// the label, without the white space and then the double quotes around
/// it.
pub open spec fn key_value_bounds(s: Seq<char>, lo: int, hi: int) -> Option<(int, int)>
    decreases hi - lo,
{
    let e = run_end(s, lo, hi, CharClass::NotLineFeed);
    let a = trim_lo(s, lo, e);
    let b = trim_hi(s, lo, e);
    if key_label_at(s, a, b) {
        let x = trim_lo(s, a + 4, b);
        let y = trim_hi(s, a + 4, b);
        let x2 = run_end(s, x, y, CharClass::Quote);
        Some((x2, run_start(s, x2, y, CharClass::Quote)))
    } else if lo <= e < hi {
        key_value_bounds(s, e + 1, hi)
    } else {
        None
    }
}

/// The key that a configuration text gives: the value of its first `key:`
/// line, unless that value is empty or the placeholder `REPLACE_ME`.
pub open spec fn configured_key(s: Seq<char>) -> Option<Seq<char>> {
    match key_value_bounds(s, 0, s.len() as int) {
        Some((x, y)) => if x >= y || s.subrange(x, y) == "REPLACE_ME"@ {
            None
        } else {
            Some(s.subrange(x, y))
        },
        None => None,
    }
}

/// Reads the key from the text of a configuration.
pub fn key_from_config(contents: &str) -> (key: Option<String>)
    ensures
        crate::parser::opt_view(key) == configured_key(contents@),
{
    let s = chars_of(contents);
    let hi = s.len();
    let mut k: usize = 0;
    loop
        invariant
            k <= hi,
            hi == s.len(),
            s@ == contents@,
            key_value_bounds(s@, 0, hi as int) == key_value_bounds(s@, k as int, hi as int),
        decreases hi - k,
    {
        let e = skip_run(&s, k, hi, CharClass::NotLineFeed);
        let (a, b) = trim_bounds(&s, k, e);
        if b - a >= 4 && s[a] == 'k' && s[a + 1] == 'e' && s[a + 2] == 'y' && s[a + 3] == ':' {
            let (x, y) = trim_bounds(&s, a + 4, b);
            let x2 = skip_run(&s, x, y, CharClass::Quote);
            let y2 = skip_run_back(&s, x2, y, CharClass::Quote);
            if x2 >= y2 {
                return None;
            }
            let value = text_of(&s, x2, y2);
            if value == "REPLACE_ME".to_owned() {
                return None;
            }
            return Some(value);
        }
        if e < hi {
            k = e + 1;
        } else {
            return None;
        }
    }
}

} // verus!
