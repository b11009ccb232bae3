//! Resolving the candidates of a scan to one port: directly when there is at
//! most one, else by asking the operator until a line names a candidate.
use vstd::prelude::*;

use crate::port::{candidates_of, filter_candidates, PortCandidate, ScannedPort};

verus! {

/// The line that the operator typed, without leading and trailing white space.
pub uninterp spec fn trim_of(s: Seq<char>) -> Seq<char>;

/// Relies on `str::trim`: the line without leading and trailing white space,
/// a result that depends on the characters alone.
#[verifier::external_body]
fn trim_line<'a>(s: &'a str) -> (r: &'a str)
    ensures
        r@ == trim_of(s@),
{
    s.trim()
}

/// A character with ASCII upper case folded to lower case, as a code point.
pub open spec fn folded(c: char) -> u32 {
    if 65 <= c as u32 && c as u32 <= 90 {
        (c as u32 + 32) as u32
    } else {
        c as u32
    }
}

/// Equality of two texts that ignores ASCII case.
pub open spec fn names_match(a: Seq<char>, b: Seq<char>) -> bool {
    &&& a.len() == b.len()
    &&& forall|i: int| 0 <= i < a.len() ==> #[trigger] folded(a[i]) == folded(b[i])
}

/// The first candidate whose port name the token names, if any.
pub open spec fn first_match(cands: Seq<PortCandidate>, token: Seq<char>) -> Option<int>
    decreases cands.len(),
{
    if cands.len() == 0 {
        None
    } else {
        match first_match(cands.drop_last(), token) {
            Some(i) => Some(i),
            None => if names_match(token, cands.last().port_name@) {
                Some(cands.len() - 1)
            } else {
                None
            },
        }
    }
}

/// Whether the token names some candidate.
pub open spec fn names_some(cands: Seq<PortCandidate>, token: Seq<char>) -> bool {
    exists|i: int| 0 <= i < cands.len() && names_match(token, #[trigger] cands[i].port_name@)
}

/// The port names of the candidates, separated by `", "`.
pub open spec fn name_list(cands: Seq<PortCandidate>) -> Seq<char>
    decreases cands.len(),
{
    if cands.len() == 0 {
        Seq::empty()
    } else if cands.len() == 1 {
        cands[0].port_name@
    } else {
        name_list(cands.drop_last()) + ", "@ + cands.last().port_name@
    }
}

/// The candidate chosen when the operator answers with these tokens in turn:
/// the first token that names a candidate selects the first candidate it names.
pub open spec fn scripted_choice(cands: Seq<PortCandidate>, tokens: Seq<Seq<char>>) -> Option<
    PortCandidate,
>
    decreases tokens.len(),
{
    if tokens.len() == 0 {
        None
    } else {
        match first_match(cands, tokens[0]) {
            Some(i) => Some(cands[i]),
            None => scripted_choice(cands, tokens.drop_first()),
        }
    }
}

/// The tokens rejected, in order, before a choice is made or the tokens run out.
pub open spec fn scripted_rejections(cands: Seq<PortCandidate>, tokens: Seq<Seq<char>>) -> Seq<
    Seq<char>,
>
    decreases tokens.len(),
{
    if tokens.len() == 0 {
        Seq::empty()
    } else {
        match first_match(cands, tokens[0]) {
            Some(_) => Seq::empty(),
            None => seq![tokens[0]] + scripted_rejections(cands, tokens.drop_first()),
        }
    }
}

/// The tokens of the lines that the operator typed.
pub open spec fn tokens_of(lines: Seq<String>) -> Seq<Seq<char>> {
    lines.map_values(|l: String| trim_of(l@))
}

/// The texts of a sequence of strings.
pub open spec fn texts(v: Seq<String>) -> Seq<Seq<char>> {
    v.map_values(|s: String| s@)
}

/// What one line of the operator leads to.
#[derive(Clone, Debug, PartialEq, Eq)]
pub enum Step {
    /// The line names this candidate.
    Matched(PortCandidate),
    /// The line, trimmed, names no candidate; the operator is asked again.
    Rejected(String),
}

/// The outcome of answering the selection prompt with a fixed list of lines.
#[derive(Clone, Debug, PartialEq, Eq)]
pub struct Resolution {
    pub chosen: Option<PortCandidate>,
    pub rejected: Vec<String>,
}

/// Several candidates waiting for the operator to pick one.
#[derive(Clone, Debug, PartialEq, Eq)]
pub struct Selector {
    candidates: Vec<PortCandidate>,
}

/// What a scan amounts to.
#[derive(Clone, Debug, PartialEq, Eq)]
pub enum Detection {
    /// No allow-listed port.
    NoDevice,
    /// Exactly one allow-listed port.
    Found(PortCandidate),
    /// Two or more allow-listed ports: the operator has to choose.
    Ambiguous(Selector),
}

impl View for Selector {
    type V = Seq<PortCandidate>;

    closed spec fn view(&self) -> Seq<PortCandidate> {
        self.candidates@
    }
}

/// Compares two characters, ignoring ASCII case.
fn same_char_ignoring_case(a: char, b: char) -> (r: bool)
    ensures
        r == (folded(a) == folded(b)),
{
    let x: u32 = a as u32;
    let y: u32 = b as u32;
    let fx: u32 = if 65 <= x && x <= 90 { x + 32 } else { x };
    let fy: u32 = if 65 <= y && y <= 90 { y + 32 } else { y };
    fx == fy
}

/// Whether two texts are equal when ASCII case is ignored.
pub fn eq_ignoring_ascii_case(a: &str, b: &str) -> (r: bool)
    ensures
        r == names_match(a@, b@),
{
    let n = a.unicode_len();
    if n != b.unicode_len() {
        return false;
    }
    let mut i: usize = 0;
    while i < n
        invariant
            n == a@.len(),
            n == b@.len(),
            i <= n,
            forall|j: int| 0 <= j < i ==> #[trigger] folded(a@[j]) == folded(b@[j]),
        decreases n - i,
    {
        if !same_char_ignoring_case(a.get_char(i), b.get_char(i)) {
            return false;
        }
        i += 1;
    }
    true
}

/// The message shown when a token names no candidate.
pub fn rejection_message(token: &str) -> (r: String)
    ensures
        r@ == "Input '"@ + token@ + "' does not match to any ports! Please input again."@,
{
    let mut s = String::from_str("Input '");
    s.append(token);
    s.append("' does not match to any ports! Please input again.");
    s
}

impl Selector {
    /// The candidates to choose from, in scan order.
    pub fn candidates(&self) -> (r: &Vec<PortCandidate>)
        ensures
            r@ == self@,
    {
        &self.candidates
    }

    /// The port names to choose from, separated by `", "`.
    pub fn names(&self) -> (r: String)
        ensures
            r@ == name_list(self@),
    {
        let mut s = String::new();
        let mut i: usize = 0;
        while i < self.candidates.len()
            invariant
                i <= self@.len(),
                s@ == name_list(self@.take(i as int)),
            decreases self@.len() - i,
        {
            let ghost before = s@;
            assert(self@.take(i as int + 1).drop_last() =~= self@.take(i as int));
            if i > 0 {
                s.append(", ");
            }
            s.append(self.candidates[i].port_name.as_str());
            assert(s@ =~= name_list(self@.take(i as int + 1)));
            i += 1;
        }
        assert(self@.take(self@.len() as int) =~= self@);
        s
    }

    /// The question put to the operator.
    pub fn prompt(&self) -> (r: String)
        ensures
            r@ == "xtask: please select one port ["@ + name_list(self@) + "]: "@,
    {
        let mut s = String::from_str("xtask: please select one port [");
        let names = self.names();
        s.append(names.as_str());
        s.append("]: ");
        s
    }

    /// Handles one token, already trimmed: the first candidate whose port name
    /// it names, ignoring ASCII case, or its rejection.
    pub fn offer_token(&self, token: &str) -> (r: Step)
        ensures
            match r {
                Step::Matched(c) => first_match(self@, token@) matches Some(i) && c == self@[i],
                Step::Rejected(t) => first_match(self@, token@) is None && t@ == token@,
            },
    {
        let mut i: usize = 0;
        while i < self.candidates.len()
            invariant
                i <= self@.len(),
                first_match(self@.take(i as int), token@) is None,
            decreases self@.len() - i,
        {
            assert(self@.take(i as int + 1).drop_last() =~= self@.take(i as int));
            if eq_ignoring_ascii_case(token, self.candidates[i].port_name.as_str()) {
                proof {
                    lemma_first_match_prefix(self@, i as int + 1, token@);
                }
                return Step::Matched(self.candidates[i].clone_candidate());
            }
            i += 1;
        }
        assert(self@.take(self@.len() as int) =~= self@);
        Step::Rejected(String::from_str(token))
    }

    /// Handles one line typed by the operator.
    pub fn offer(&self, line: &str) -> (r: Step)
        ensures
            match r {
                Step::Matched(c) => first_match(self@, trim_of(line@)) matches Some(i) && c
                    == self@[i],
                Step::Rejected(t) => first_match(self@, trim_of(line@)) is None && t@ == trim_of(
                    line@,
                ),
            },
    {
        self.offer_token(trim_line(line))
    }

    /// Answers the prompt with the given lines in turn, until one of them names
    /// a candidate.
    pub fn run_script(&self, lines: &Vec<String>) -> (r: Resolution)
        ensures
            r.chosen == scripted_choice(self@, tokens_of(lines@)),
            texts(r.rejected@) == scripted_rejections(self@, tokens_of(lines@)),
    {
        let ghost toks = tokens_of(lines@);
        let mut rejected: Vec<String> = Vec::new();
        let mut k: usize = 0;
        assert(toks.skip(0) =~= toks);
        assert(texts(rejected@) + scripted_rejections(self@, toks) =~= scripted_rejections(
            self@,
            toks,
        ));
        while k < lines.len()
            invariant
                k <= lines@.len(),
                toks == tokens_of(lines@),
                scripted_choice(self@, toks) == scripted_choice(self@, toks.skip(k as int)),
                scripted_rejections(self@, toks) == texts(rejected@) + scripted_rejections(
                    self@,
                    toks.skip(k as int),
                ),
            decreases lines@.len() - k,
        {
            let ghost rest = toks.skip(k as int);
            assert(rest[0] == trim_of(lines@[k as int]@));
            assert(rest.drop_first() =~= toks.skip(k as int + 1));
            match self.offer(lines[k].as_str()) {
                Step::Matched(c) => {
                    assert(texts(rejected@) + Seq::<Seq<char>>::empty() =~= texts(rejected@));
                    return Resolution { chosen: Some(c), rejected };
                },
                Step::Rejected(t) => {
                    let ghost old_rejected = rejected@;
                    rejected.push(t);
                    assert(texts(rejected@) =~= texts(old_rejected).push(t@));
                    assert(texts(rejected@) + scripted_rejections(self@, toks.skip(k as int + 1))
                        =~= texts(old_rejected) + scripted_rejections(self@, rest));
                },
            }
            k += 1;
        }
        assert(toks.skip(k as int) =~= Seq::<Seq<char>>::empty());
        assert(texts(rejected@) + Seq::<Seq<char>>::empty() =~= texts(rejected@));
        Resolution { chosen: None, rejected }
    }
}

/// The first match in a prefix of the candidates is the first match in all of them.
proof fn lemma_first_match_prefix(cands: Seq<PortCandidate>, m: int, token: Seq<char>)
    requires
        0 <= m <= cands.len(),
        first_match(cands.take(m), token) is Some,
    ensures
        first_match(cands, token) == first_match(cands.take(m), token),
    decreases cands.len(),
{
    if m == cands.len() {
        assert(cands.take(m) =~= cands);
    } else {
        assert(cands.drop_last().take(m) =~= cands.take(m));
        lemma_first_match_prefix(cands.drop_last(), m, token);
    }
}

/// Sorts a scan into no device, one device, or a choice for the operator
/// between the allow-listed ports, kept in scan order.
pub fn detect_serial_ports(scan: &Vec<ScannedPort>) -> (r: Detection)
    ensures
        candidates_of(scan@).len() == 0 <==> r is NoDevice,
        candidates_of(scan@).len() == 1 <==> r is Found,
        candidates_of(scan@).len() >= 2 <==> r is Ambiguous,
        r matches Detection::Found(c) ==> c == candidates_of(scan@)[0],
        r matches Detection::Ambiguous(s) ==> s@ == candidates_of(scan@),
{
    let mut found = filter_candidates(scan);
    if found.len() == 0 {
        Detection::NoDevice
    } else if found.len() == 1 {
        Detection::Found(found.remove(0))
    } else {
        Detection::Ambiguous(Selector { candidates: found })
    }
}

/// The first match is a candidate that the token names, with none named before
/// it; when there is none, the token names no candidate.
pub proof fn lemma_first_match_meaning(cands: Seq<PortCandidate>, token: Seq<char>)
    ensures
        match first_match(cands, token) {
            Some(i) => {
                &&& 0 <= i < cands.len()
                &&& names_match(token, cands[i].port_name@)
                &&& forall|j: int| 0 <= j < i ==> !names_match(token, #[trigger] cands[j].port_name@)
            },
            None => !names_some(cands, token),
        },
    decreases cands.len(),
{
    if cands.len() > 0 {
        let front = cands.drop_last();
        lemma_first_match_meaning(front, token);
        match first_match(front, token) {
            Some(i) => {
                assert(front[i] == cands[i]);
                assert forall|j: int| 0 <= j < i implies !names_match(
                    token,
                    #[trigger] cands[j].port_name@,
                ) by {
                    assert(front[j] == cands[j]);
                    assert(!names_match(token, front[j].port_name@));
                }
            },
            None => {
                assert forall|j: int| 0 <= j < cands.len() - 1 implies !names_match(
                    token,
                    #[trigger] cands[j].port_name@,
                ) by {
                    assert(front[j] == cands[j]);
                    if names_match(token, cands[j].port_name@) {
                        assert(names_some(front, token));
                    }
                }
                if !names_match(token, cands.last().port_name@) {
                    assert forall|j: int| 0 <= j < cands.len() implies !names_match(
                        token,
                        #[trigger] cands[j].port_name@,
                    ) by {
                        if j == cands.len() - 1 {
                            assert(cands[j] == cands.last());
                        }
                    }
                }
            },
        }
    }
}

/// With two or more candidates in a scan, answering the prompt with a series of
/// tokens ends in a choice exactly when some token names, ignoring ASCII case,
/// one of the candidates. The port chosen is one of the candidates, named by a
/// token, and every token before that one named no candidate.
pub proof fn lemma_selection_by_tokens(scan: Seq<ScannedPort>, tokens: Seq<Seq<char>>)
    requires
        candidates_of(scan).len() >= 2,
    ensures
        scripted_choice(candidates_of(scan), tokens) is Some <==> exists|k: int|
            0 <= k < tokens.len() && names_some(candidates_of(scan), #[trigger] tokens[k]),
        scripted_choice(candidates_of(scan), tokens) matches Some(c) ==> {
            &&& candidates_of(scan).contains(c)
            &&& exists|k: int|
                0 <= k < tokens.len() && names_match(#[trigger] tokens[k], c.port_name@) && forall|
                    j: int,
                | 0 <= j < k ==> !names_some(candidates_of(scan), #[trigger] tokens[j])
        },
{
    lemma_scripted_choice(candidates_of(scan), tokens);
}

proof fn lemma_scripted_choice(cands: Seq<PortCandidate>, tokens: Seq<Seq<char>>)
    ensures
        scripted_choice(cands, tokens) is Some <==> exists|k: int|
            0 <= k < tokens.len() && names_some(cands, #[trigger] tokens[k]),
        scripted_choice(cands, tokens) matches Some(c) ==> {
            &&& cands.contains(c)
            &&& exists|k: int|
                0 <= k < tokens.len() && names_match(#[trigger] tokens[k], c.port_name@) && forall|
                    j: int,
                | 0 <= j < k ==> !names_some(cands, #[trigger] tokens[j])
        },
    decreases tokens.len(),
{
    if tokens.len() > 0 {
        lemma_first_match_meaning(cands, tokens[0]);
        match first_match(cands, tokens[0]) {
            Some(i) => {
                assert(names_some(cands, tokens[0]));
                assert(cands[i] == cands[i]);
                assert(names_match(tokens[0], cands[i].port_name@));
            },
            None => {
                let rest = tokens.drop_first();
                lemma_scripted_choice(cands, rest);
                assert forall|k: int| 0 <= k < rest.len() implies #[trigger] rest[k] == tokens[k
                    + 1] by {}
                if exists|k: int| 0 <= k < tokens.len() && names_some(cands, #[trigger] tokens[k]) {
                    let k = choose|k: int| 0 <= k < tokens.len() && names_some(cands, #[trigger] tokens[k]);
                    assert(k != 0);
                    assert(names_some(cands, rest[k - 1]));
                }
                if scripted_choice(cands, rest) is Some {
                    let k = choose|k: int| 0 <= k < rest.len() && names_some(cands, #[trigger] rest[k]);
                    assert(names_some(cands, tokens[k + 1]));
                }
                match scripted_choice(cands, rest) {
                    Some(c) => {
                        let k = choose|k: int|
                            0 <= k < rest.len() && names_match(#[trigger] rest[k], c.port_name@)
                                && forall|j: int|
                                0 <= j < k ==> !names_some(cands, #[trigger] rest[j]);
                        assert forall|j: int| 0 <= j < k + 1 implies !names_some(
                            cands,
                            #[trigger] tokens[j],
                        ) by {
                            if j > 0 {
                                assert(rest[j - 1] == tokens[j]);
                            }
                        }
                        assert(names_match(tokens[k + 1], c.port_name@));
                    },
                    None => {},
                }
            },
        }
    }
}

/// Tokens that name no candidate change nothing: they are rejected in order,
/// and the selection goes on as if they had not been typed.
pub proof fn lemma_rejected_tokens_ignored(
    cands: Seq<PortCandidate>,
    rejected: Seq<Seq<char>>,
    tokens: Seq<Seq<char>>,
)
    requires
        forall|j: int| 0 <= j < rejected.len() ==> !names_some(cands, #[trigger] rejected[j]),
    ensures
        scripted_choice(cands, rejected + tokens) == scripted_choice(cands, tokens),
        scripted_rejections(cands, rejected + tokens) == rejected + scripted_rejections(
            cands,
            tokens,
        ),
    decreases rejected.len(),
{
    if rejected.len() == 0 {
        assert(rejected + tokens =~= tokens);
        assert(rejected + scripted_rejections(cands, tokens) =~= scripted_rejections(
            cands,
            tokens,
        ));
    } else {
        let all = rejected + tokens;
        let rest = rejected.drop_first();
        assert(all[0] == rejected[0]);
        assert(!names_some(cands, rejected[0]));
        lemma_first_match_meaning(cands, rejected[0]);
        assert(all.drop_first() =~= rest + tokens);
        assert forall|j: int| 0 <= j < rest.len() implies !names_some(
            cands,
            #[trigger] rest[j],
        ) by {
            assert(rest[j] == rejected[j + 1]);
        }
        lemma_rejected_tokens_ignored(cands, rest, tokens);
        assert(seq![rejected[0]] + (rest + scripted_rejections(cands, tokens)) =~= rejected
            + scripted_rejections(cands, tokens));
    }
}

} // verus!
