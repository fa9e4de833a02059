//! Paths into a document.

use crate::error::{validation_error, validation_refusal, Error, ErrorV};
use crate::json::{jsons, lemma_array_view, Json, JsonV};
use crate::text::{cat3, chars_of, natural_of, parse_usize, text_of};
use vstd::prelude::*;

verus! {

/// One step of a path: a key of an object or an index of an array.
#[derive(Debug, PartialEq, Eq)]
pub enum PathStep {
    Key(String),
    Index(usize),
}

/// What a [`PathStep`] holds.
#[verifier::ext_equal]
pub enum PathStepV {
    Key(Seq<char>),
    Index(usize),
}

impl View for PathStep {
    type V = PathStepV;

    open spec fn view(&self) -> PathStepV {
        match *self {
            PathStep::Key(key) => PathStepV::Key(key@),
            PathStep::Index(index) => PathStepV::Index(index),
        }
    }
}

/// What several steps hold.
pub open spec fn steps_of(v: Seq<PathStep>) -> Seq<PathStepV> {
    v.map_values(|s: PathStep| s@)
}

/// The first place from the `i`th on where a character stands, or the end.
pub open spec fn place_of_char(s: Seq<char>, c: char, i: nat) -> nat
    decreases s.len() - i,
{
    if i >= s.len() {
        s.len()
    } else if s[i as int] == c {
        i
    } else {
        place_of_char(s, c, i + 1)
    }
}

/// The end of a bare key: the first place from the `i`th on where a dot or a
/// bracket stands, or the end.
pub open spec fn key_end(s: Seq<char>, i: nat) -> nat
    decreases s.len() - i,
{
    if i >= s.len() {
        s.len()
    } else if s[i as int] == '.' || s[i as int] == '[' {
        i
    } else {
        key_end(s, i + 1)
    }
}

/// What stands in a bracket without quotes: an index where it is a number,
/// and a key otherwise.
pub open spec fn bracketed(inner: Seq<char>) -> PathStepV {
    match natural_of(inner) {
        Some(n) => if n <= usize::MAX {
            PathStepV::Index(n as usize)
        } else {
            PathStepV::Key(inner)
        },
        None => PathStepV::Key(inner),
    }
}

/// The step in the bracket whose inside begins at the `i`th place, and the
/// place after it; none where it never closes.
pub open spec fn bracket_step(s: Seq<char>, i: nat) -> Option<(PathStepV, nat)> {
    if i < s.len() && (s[i as int] == '\'' || s[i as int] == '"') {
        let k = place_of_char(s, s[i as int], i + 1);
        if k + 1 < s.len() && s[(k + 1) as int] == ']' {
            Some((PathStepV::Key(s.subrange((i + 1) as int, k as int)), k + 2))
        } else {
            None
        }
    } else {
        let k = place_of_char(s, ']', i);
        if k < s.len() {
            Some((bracketed(s.subrange(i as int, k as int)), k + 1))
        } else {
            None
        }
    }
}

/// The steps of a path from the `i`th place on, after those in `found`; none
/// where a bracket never closes. A dot carries no step of its own.
pub open spec fn steps_from(s: Seq<char>, i: nat, found: Seq<PathStepV>) -> Option<Seq<PathStepV>>
    decreases s.len() - i,
{
    if i >= s.len() {
        Some(found)
    } else if s[i as int] == '.' {
        steps_from(s, i + 1, found)
    } else if s[i as int] == '[' {
        match bracket_step(s, i + 1) {
            None => None,
            Some((step, next)) => if next <= i {
                None
            } else {
                steps_from(s, next, found.push(step))
            },
        }
    } else {
        let k = key_end(s, i);
        if k <= i || k > s.len() {
            None
        } else {
            steps_from(s, k, found.push(PathStepV::Key(s.subrange(i as int, k as int))))
        }
    }
}

/// The steps of a path, which may begin by naming the document itself.
pub open spec fn path_steps(s: Seq<char>) -> Option<Seq<PathStepV>> {
    steps_from(
        s,
        if s.len() > 0 && s[0] == '$' {
            1
        } else {
            0
        },
        Seq::empty(),
    )
}

/// The refusal of a path whose bracket never closes.
pub open spec fn unclosed(path: Seq<char>) -> ErrorV {
    validation_refusal("\""@ + path + "\" is not a JSON path: a bracket is never closed"@)
}

/// What a path is: its steps, or its refusal.
pub open spec fn parsed(path: Seq<char>) -> Result<Seq<PathStepV>, ErrorV> {
    match path_steps(path) {
        Some(steps) => Ok(steps),
        None => Err(unclosed(path)),
    }
}

/// A path whose bracket never closes: written wrong rather than written oddly.
fn unclosed_bracket(path: &str) -> (r: Error)
    ensures
        r@ == unclosed(path@),
{
    validation_error(cat3("\"", path, "\" is not a JSON path: a bracket is never closed"))
}

fn find_char(cs: &Vec<char>, c: char, from: usize) -> (r: usize)
    requires
        from <= cs@.len(),
    ensures
        r == place_of_char(cs@, c, from as nat),
        from <= r <= cs@.len(),
{
    let mut i: usize = from;
    while i < cs.len()
        invariant
            from <= i <= cs@.len(),
            place_of_char(cs@, c, from as nat) == place_of_char(cs@, c, i as nat),
        decreases cs.len() - i,
    {
        if cs[i] == c {
            return i;
        }
        i += 1;
    }
    i
}

fn find_key_end(cs: &Vec<char>, from: usize) -> (r: usize)
    requires
        from <= cs@.len(),
    ensures
        r == key_end(cs@, from as nat),
        from <= r <= cs@.len(),
{
    let mut i: usize = from;
    while i < cs.len()
        invariant
            from <= i <= cs@.len(),
            key_end(cs@, from as nat) == key_end(cs@, i as nat),
        decreases cs.len() - i,
    {
        if cs[i] == '.' || cs[i] == '[' {
            return i;
        }
        i += 1;
    }
    i
}

fn read_bracket(cs: &Vec<char>, i: usize) -> (r: Option<(PathStep, usize)>)
    requires
        1 <= i <= cs@.len(),
    ensures
        (match r {
            Some((step, next)) => Some((step@, next as nat)),
            None => None,
        }) == bracket_step(cs@, i as nat),
        r is Some ==> i <= (r->0).1 <= cs@.len(),
{
    if i < cs.len() && (cs[i] == '\'' || cs[i] == '"') {
        let k: usize = find_char(cs, cs[i], i + 1);
        if k < cs.len() && k + 1 < cs.len() && cs[k + 1] == ']' {
            Some((PathStep::Key(text_of(cs, i + 1, k)), k + 2))
        } else {
            None
        }
    } else {
        let k: usize = find_char(cs, ']', i);
        if k < cs.len() {
            let inner = text_of(cs, i, k);
            match parse_usize(&inner) {
                Some(index) => Some((PathStep::Index(index), k + 1)),
                None => Some((PathStep::Key(inner), k + 1)),
            }
        } else {
            None
        }
    }
}

/// Parse a path into its steps.
///
/// Tolerant about separators: `objs[0]["x"]`, `objs.[0].["x"]` and
/// `.objs[0]['x']` all name one thing. A bracket that never closes is not a
/// spelling, and is refused.
pub fn parse_json_path(path: &str) -> (r: Result<Vec<PathStep>, Error>)
    ensures
        (match r {
            Ok(steps) => Ok(steps_of(steps@)),
            Err(e) => Err(e@),
        }) == parsed(path@),
{
    let cs = chars_of(path);
    let mut steps: Vec<PathStep> = Vec::new();
    assert(steps_of(steps@) =~= Seq::<PathStepV>::empty());
    let mut i: usize = if cs.len() > 0 && cs[0] == '$' { 1 } else { 0 };
    while i < cs.len()
        invariant
            i <= cs@.len(),
            cs@ == path@,
            path_steps(path@) == steps_from(path@, i as nat, steps_of(steps@)),
        decreases cs.len() - i,
    {
        let c: char = cs[i];
        if c == '.' {
            i += 1;
        } else if c == '[' {
            match read_bracket(&cs, i + 1) {
                None => return Err(unclosed_bracket(path)),
                Some((step, next)) => {
                    proof {
                        assert(steps_of(steps@.push(step)) =~= steps_of(steps@).push(step@));
                    }
                    steps.push(step);
                    i = next;
                },
            }
        } else {
            let k: usize = find_key_end(&cs, i);
            let step = PathStep::Key(text_of(&cs, i, k));
            proof {
                assert(steps_of(steps@.push(step)) =~= steps_of(steps@).push(step@));
                assert(key_end(path@, i as nat) == key_end(path@, (i + 1) as nat));
                lemma_key_end(path@, (i + 1) as nat);
            }
            steps.push(step);
            i = k;
        }
    }
    Ok(steps)
}

proof fn lemma_key_end(s: Seq<char>, i: nat)
    requires
        i <= s.len(),
    ensures
        i <= key_end(s, i) <= s.len(),
    decreases s.len() - i,
{
    if i < s.len() && s[i as int] != '.' && s[i as int] != '[' {
        lemma_key_end(s, i + 1);
    }
}

/// What one step reads of a document. An index of an object and a key of an
/// array read nothing, and so does anything asked of a scalar.
pub open spec fn step_in(value: JsonV, step: PathStepV) -> Option<JsonV> {
    match step {
        PathStepV::Key(key) => value.get(key),
        PathStepV::Index(index) => match value {
            JsonV::Array(items) => if index < items.len() {
                Some(items[index as int])
            } else {
                None
            },
            _ => None,
        },
    }
}

/// What the steps from the `i`th on read of a document: null where one of them
/// names something that is not there.
pub open spec fn walked(value: JsonV, steps: Seq<PathStepV>, i: nat) -> JsonV
    decreases steps.len() - i,
{
    if i >= steps.len() {
        value
    } else {
        match step_in(value, steps[i as int]) {
            Some(next) => walked(next, steps, i + 1),
            None => JsonV::Null,
        }
    }
}

/// The part of a document that a path names.
pub open spec fn part_of(value: JsonV, path: Seq<char>) -> Result<JsonV, ErrorV> {
    match parsed(path) {
        Ok(steps) => Ok(walked(value, steps, 0)),
        Err(e) => Err(e),
    }
}

/// Read one part of a document.
///
/// A step that names something the document does not have is null.
pub fn walk_json_path(value: &Json, path: &str) -> (r: Result<Json, Error>)
    ensures
        crate::mutate::document_outcome(r) == part_of(value@, path@),
{
    let steps = match parse_json_path(path) {
        Ok(steps) => steps,
        Err(e) => return Err(e),
    };
    let ghost all = steps_of(steps@);
    let mut at: &Json = value;
    let mut i: usize = 0;
    while i < steps.len()
        invariant
            i <= steps.len(),
            all == steps_of(steps@),
            part_of(value@, path@) == Ok::<JsonV, ErrorV>(walked(at@, all, i as nat)),
        decreases steps.len() - i,
    {
        assert(all[i as int] == steps@[i as int]@);
        let next: Option<&Json> = match &steps[i] {
            PathStep::Key(key) => at.get(key),
            PathStep::Index(index) => match at {
                Json::Array(items) => {
                    proof {
                        lemma_array_view(*items);
                    }
                    if *index < items.len() {
                        assert(jsons(items@)[*index as int] == items@[*index as int]@);
                        Some(&items[*index])
                    } else {
                        None
                    }
                },
                _ => None,
            },
        };
        match next {
            Some(next) => {
                at = next;
            },
            None => return Ok(Json::Null),
        }
        i += 1;
    }
    Ok(at.copy())
}

} // verus!
