//! The tokenizer: from one line of input to a command plan.
//!
//! A line is cut into command groups at every `;`. A group is cut into
//! dependent commands at every `&&`, taken from the left. A dependent command
//! is cut into tokens at whitespace. A last token `&` is no argument: it marks
//! the command as one to run in the background. A piece that holds no token
//! gives no command, and a group without commands is left out of the plan.

use vstd::prelude::*;
use vstd::string::*;
use crate::words::{split_words, texts, words_of};

verus! {

/// One program invocation: the program's name, then its arguments.
#[derive(Debug, Clone, PartialEq, Eq)]
pub struct DependentCommand {
    /// The program's name and its arguments, without the background mark.
    pub tokens: Vec<String>,
    /// Whether the command ended in the background mark.
    pub background: bool,
}

/// What a dependent command is, as plain values.
pub ghost struct CommandModel {
    pub tokens: Seq<Seq<char>>,
    pub background: bool,
}

impl View for DependentCommand {
    type V = CommandModel;

    open spec fn view(&self) -> CommandModel {
        CommandModel { tokens: texts(self.tokens@), background: self.background }
    }
}

/// The commands of a group as plain values, in order.
pub open spec fn group_model(group: Seq<DependentCommand>) -> Seq<CommandModel> {
    Seq::new(group.len(), |i: int| group[i]@)
}

/// The groups of a plan as plain values, in order.
pub open spec fn plan_model(plan: Seq<Vec<DependentCommand>>) -> Seq<Seq<CommandModel>> {
    Seq::new(plan.len(), |i: int| group_model(plan[i]@))
}

/// The token that marks a command for the background.
pub open spec fn background_mark() -> Seq<char> {
    seq!['&']
}

/// Whether a chain delimiter starts at index `i` of `s`.
pub open spec fn chain_at(s: Seq<char>, i: int) -> bool {
    0 <= i && i + 1 < s.len() && s[i] == '&' && s[i + 1] == '&'
}

/// The index of the first `;` in `s`, or the length of `s` where it holds none.
pub open spec fn group_end(s: Seq<char>) -> nat
    decreases s.len(),
{
    if s.len() == 0 || s[0] == ';' {
        0
    } else {
        1 + group_end(s.skip(1))
    }
}

/// The index at which the first `&&` in `s` starts, or the length of `s`
/// where it holds none.
pub open spec fn chain_pos(s: Seq<char>) -> nat
    decreases s.len(),
{
    if s.len() < 2 {
        s.len()
    } else if s[0] == '&' && s[1] == '&' {
        0
    } else {
        1 + chain_pos(s.skip(1))
    }
}

/// The command that a sequence of tokens stands for, if any: none without a
/// token, and none where the background mark is all there is.
pub open spec fn command_of(words: Seq<Seq<char>>) -> Option<CommandModel> {
    if words.len() == 0 {
        None
    } else if words.last() != background_mark() {
        Some(CommandModel { tokens: words, background: false })
    } else if words.len() == 1 {
        None
    } else {
        Some(CommandModel { tokens: words.drop_last(), background: true })
    }
}

/// The dependent commands of one group's text.
pub open spec fn group_of(s: Seq<char>) -> Seq<CommandModel>
    decreases s.len(),
{
    let n = chain_pos(s) as int;
    let head = match command_of(words_of(s.take(n))) {
        Some(c) => seq![c],
        None => Seq::empty(),
    };
    if n + 2 > s.len() {
        head
    } else {
        head + group_of(s.skip(n + 2))
    }
}

/// The command plan of a line.
pub open spec fn plan_of(s: Seq<char>) -> Seq<Seq<CommandModel>>
    decreases s.len(),
{
    let n = group_end(s) as int;
    let group = group_of(s.take(n));
    let head = if group.len() > 0 {
        seq![group]
    } else {
        Seq::empty()
    };
    if n >= s.len() {
        head
    } else {
        head + plan_of(s.skip(n + 1))
    }
}

/// What holds of every plan: no group is empty, and every command names a
/// program.
pub open spec fn plan_is_sound(plan: Seq<Seq<CommandModel>>) -> bool {
    forall|g: int|
        0 <= g < plan.len() ==> (#[trigger] plan[g]).len() > 0 && forall|c: int|
            0 <= c < plan[g].len() ==> (#[trigger] plan[g][c]).tokens.len() > 0
}

/// Whether `token` is the background mark.
fn is_background_mark(token: &str) -> (r: bool)
    ensures
        r == (token@ == background_mark()),
{
    if token.unicode_len() == 1 && token.get_char(0) == '&' {
        assert(token@ =~= background_mark());
        true
    } else {
        assert(background_mark().len() == 1 && background_mark()[0] == '&');
        false
    }
}

/// Reads one dependent command from `segment`, in which every character
/// that is no whitespace belongs to a token.
pub fn parse_command(segment: &str) -> (r: Option<DependentCommand>)
    ensures
        match r {
            Some(c) => command_of(words_of(segment@)) == Some(c@),
            None => command_of(words_of(segment@)) is None,
        },
{
    let mut tokens = split_words(segment);
    let count: usize = tokens.len();
    if count == 0 {
        return None;
    }
    let ghost words = texts(tokens@);
    assert(words.last() == tokens@[count - 1]@);
    if !is_background_mark(tokens[count - 1].as_str()) {
        return Some(DependentCommand { tokens, background: false });
    }
    if count == 1 {
        return None;
    }
    tokens.pop();
    assert(texts(tokens@) =~= words.drop_last());
    Some(DependentCommand { tokens, background: true })
}

/// Reads the dependent commands of one group from `segment`. Only `&&` cuts
/// here: a `;` is a character like any other.
pub fn tokenize_group(segment: &str) -> (out: Vec<DependentCommand>)
    ensures
        group_model(out@) == group_of(segment@),
{
    let n: usize = segment.unicode_len();
    let mut out: Vec<DependentCommand> = Vec::new();
    let mut i: usize = 0;
    let mut done: bool = false;
    proof {
        assert(segment@.skip(0) =~= segment@);
        assert(group_model(out@) + group_of(segment@) =~= group_of(segment@));
    }
    while !done
        invariant
            n == segment@.len(),
            i <= n,
            !done ==> group_model(out@) + group_of(segment@.skip(i as int)) == group_of(
                segment@,
            ),
            done ==> group_model(out@) == group_of(segment@),
        decreases (if done { 0 } else { n - i + 1 }),
    {
        let ghost rest = segment@.skip(i as int);
        let mut j: usize = i;
        while n - j >= 2 && !(segment.get_char(j) == '&' && segment.get_char(j + 1) == '&')
            invariant
                n == segment@.len(),
                i <= j <= n,
                (j - i) + chain_pos(segment@.skip(j as int)) == chain_pos(rest),
                rest == segment@.skip(i as int),
            decreases n - j,
        {
            proof {
                assert(segment@.skip(j as int).skip(1) =~= segment@.skip(j + 1));
            }
            j += 1;
        }
        let end: usize = if n - j >= 2 { j } else { n };
        assert(chain_pos(rest) == end - i);
        let ghost before = group_model(out@);
        let piece = segment.substring_char(i, end);
        proof {
            assert(rest.take(end - i) =~= segment@.subrange(i as int, end as int));
        }
        match parse_command(piece) {
            Some(command) => {
                proof {
                    assert(group_model(out@.push(command)) =~= before + seq![command@]);
                }
                out.push(command);
            },
            None => {},
        }
        if n - end < 2 {
            proof {
                assert(group_model(out@) =~= before + group_of(rest));
            }
            done = true;
        } else {
            proof {
                assert(rest.skip(end - i + 2) =~= segment@.skip(end + 2));
                assert(group_model(out@) + group_of(segment@.skip(end + 2)) =~= before + group_of(
                    rest,
                ));
            }
            i = end + 2;
        }
    }
    out
}

/// Turns a line of input into its command plan. The plan depends on the
/// line's text alone; nothing is looked up and nothing is run.
pub fn tokenize_commands(line: &str) -> (plan: Vec<Vec<DependentCommand>>)
    ensures
        plan_model(plan@) == plan_of(line@),
        plan_is_sound(plan_model(plan@)),
{
    let n: usize = line.unicode_len();
    let mut plan: Vec<Vec<DependentCommand>> = Vec::new();
    let mut i: usize = 0;
    let mut done: bool = false;
    proof {
        assert(line@.skip(0) =~= line@);
        assert(plan_model(plan@) + plan_of(line@) =~= plan_of(line@));
    }
    while !done
        invariant
            n == line@.len(),
            i <= n,
            !done ==> plan_model(plan@) + plan_of(line@.skip(i as int)) == plan_of(line@),
            done ==> plan_model(plan@) == plan_of(line@),
        decreases (if done { 0 } else { n - i + 1 }),
    {
        let ghost rest = line@.skip(i as int);
        let mut j: usize = i;
        while j < n && line.get_char(j) != ';'
            invariant
                n == line@.len(),
                i <= j <= n,
                (j - i) + group_end(line@.skip(j as int)) == group_end(rest),
                rest == line@.skip(i as int),
            decreases n - j,
        {
            proof {
                assert(line@.skip(j as int).skip(1) =~= line@.skip(j + 1));
            }
            j += 1;
        }
        assert(group_end(rest) == j - i);
        let ghost before = plan_model(plan@);
        let piece = line.substring_char(i, j);
        proof {
            assert(rest.take(j - i) =~= line@.subrange(i as int, j as int));
        }
        let group = tokenize_group(piece);
        if group.len() > 0 {
            proof {
                assert(plan_model(plan@.push(group)) =~= before + seq![group_model(group@)]);
            }
            plan.push(group);
        }
        if j >= n {
            proof {
                assert(plan_model(plan@) =~= before + plan_of(rest));
            }
            done = true;
        } else {
            proof {
                assert(rest.skip(j - i + 1) =~= line@.skip(j + 1));
                assert(plan_model(plan@) + plan_of(line@.skip(j + 1)) =~= before + plan_of(rest));
            }
            i = j + 1;
        }
    }
    proof {
        lemma_plan_is_sound(line@);
    }
    plan
}

/// Every command of a group names a program.
pub proof fn lemma_group_names_programs(s: Seq<char>)
    ensures
        forall|c: int| 0 <= c < group_of(s).len() ==> (#[trigger] group_of(s)[c]).tokens.len() > 0,
    decreases s.len(),
{
    let n = chain_pos(s) as int;
    let head = match command_of(words_of(s.take(n))) {
        Some(c) => seq![c],
        None => Seq::empty(),
    };
    if n + 2 <= s.len() {
        let tail = group_of(s.skip(n + 2));
        lemma_group_names_programs(s.skip(n + 2));
        assert forall|c: int| 0 <= c < group_of(s).len() implies (#[trigger] group_of(
            s,
        )[c]).tokens.len() > 0 by {
            if c < head.len() {
                assert(group_of(s)[c] == head[c]);
            } else {
                assert(group_of(s)[c] == tail[c - head.len()]);
            }
        }
    } else {
        assert(group_of(s) == head);
    }
}

/// The plan of any line is sound: it holds no empty group and no command
/// without a program name.
pub proof fn lemma_plan_is_sound(s: Seq<char>)
    ensures
        plan_is_sound(plan_of(s)),
    decreases s.len(),
{
    let n = group_end(s) as int;
    let group = group_of(s.take(n));
    let head = if group.len() > 0 {
        seq![group]
    } else {
        Seq::empty()
    };
    lemma_group_names_programs(s.take(n));
    if n < s.len() {
        let tail = plan_of(s.skip(n + 1));
        lemma_plan_is_sound(s.skip(n + 1));
        assert forall|g: int| 0 <= g < plan_of(s).len() implies (#[trigger] plan_of(s)[g]).len()
            > 0 && forall|c: int|
            0 <= c < plan_of(s)[g].len() ==> (#[trigger] plan_of(s)[g][c]).tokens.len() > 0 by {
            if g < head.len() {
                assert(plan_of(s)[g] == head[g]);
            } else {
                assert(plan_of(s)[g] == tail[g - head.len()]);
            }
        }
    } else {
        assert(plan_of(s) == head);
    }
}

/// `group_end` is where the first `;` stands.
pub proof fn lemma_group_end(s: Seq<char>)
    ensures
        group_end(s) <= s.len(),
        forall|k: int| 0 <= k < group_end(s) ==> #[trigger] s[k] != ';',
        group_end(s) < s.len() ==> s[group_end(s) as int] == ';',
    decreases s.len(),
{
    if s.len() == 0 || s[0] == ';' {
    } else {
        let t = s.skip(1);
        lemma_group_end(t);
        assert forall|k: int| 0 <= k < group_end(s) implies #[trigger] s[k] != ';' by {
            if k > 0 {
                assert(s[k] == t[k - 1]);
            }
        }
    }
}

/// `chain_pos` is where the first `&&` starts.
pub proof fn lemma_chain_pos(s: Seq<char>)
    ensures
        chain_pos(s) <= s.len(),
        forall|k: int| 0 <= k < chain_pos(s) ==> !chain_at(s, k),
        chain_pos(s) < s.len() ==> chain_at(s, chain_pos(s) as int),
    decreases s.len(),
{
    if s.len() < 2 {
    } else if s[0] == '&' && s[1] == '&' {
    } else {
        let t = s.skip(1);
        lemma_chain_pos(t);
        assert forall|k: int| 0 <= k < chain_pos(s) implies !chain_at(s, k) by {
            if k > 0 {
                assert(chain_at(s, k) == chain_at(t, k - 1));
            }
        }
    }
}

/// The first `;` of a line cuts it in two: what stands before it gives the
/// first group, if it holds a command at all, and what stands behind it gives
/// the rest of the plan, whatever the first group holds.
pub proof fn lemma_group_delimiter_splits(before: Seq<char>, after: Seq<char>)
    requires
        forall|i: int| 0 <= i < before.len() ==> before[i] != ';',
    ensures
        plan_of(before + seq![';'] + after) == (if group_of(before).len() > 0 {
            seq![group_of(before)]
        } else {
            Seq::empty()
        }) + plan_of(after),
{
    let s = before + seq![';'] + after;
    let n = before.len() as int;
    lemma_group_end(s);
    assert(s[n] == ';');
    let g = group_end(s) as int;
    if g < n {
        assert(s[g] == before[g]);
    }
    assert(g == n);
    assert(s.take(n) =~= before);
    assert(s.skip(n + 1) =~= after);
}

/// The first `&&` of a group cuts it in two: what stands before it gives the
/// first command, if it holds a token at all, and what stands behind it gives
/// the commands that follow. The text before it holds no `&&` and does not end
/// in `&`.
pub proof fn lemma_chain_delimiter_splits(before: Seq<char>, after: Seq<char>)
    requires
        forall|i: int| !chain_at(before + seq!['&'], i),
    ensures
        group_of(before + seq!['&', '&'] + after) == (match command_of(words_of(before)) {
            Some(c) => seq![c],
            None => Seq::<CommandModel>::empty(),
        }) + group_of(after),
{
    let s = before + seq!['&', '&'] + after;
    let marked = before + seq!['&'];
    let n = before.len() as int;
    lemma_chain_pos(s);
    assert(s[n] == '&' && s[n + 1] == '&');
    assert(chain_at(s, n));
    let g = chain_pos(s) as int;
    if g < n {
        assert(chain_at(s, g));
        assert(s[g] == marked[g]);
        assert(s[g + 1] == marked[g + 1]);
        assert(chain_at(marked, g));
    }
    assert(g == n);
    assert(s.take(n) =~= before);
    assert(s.skip(n + 2) =~= after);
}

/// A line that holds neither `;` nor `&&` is one piece: its plan is the one
/// group of the one command that its tokens stand for, and it is empty where
/// they stand for none.
pub proof fn lemma_line_without_delimiters(line: Seq<char>)
    requires
        forall|i: int| 0 <= i < line.len() ==> line[i] != ';',
        forall|i: int| !chain_at(line, i),
    ensures
        plan_of(line) == match command_of(words_of(line)) {
            Some(c) => seq![seq![c]],
            None => Seq::<Seq<CommandModel>>::empty(),
        },
{
    lemma_group_end(line);
    lemma_chain_pos(line);
    assert(line.take(line.len() as int) =~= line);
    let head = match command_of(words_of(line)) {
        Some(c) => seq![c],
        None => Seq::empty(),
    };
    assert(group_of(line) == head);
}

/// A line that holds neither `;` nor `&&`, and at least one token, the last
/// of which is not the background mark, has a plan of exactly one group with
/// exactly one command, whose tokens are those of the whole line.
pub proof fn lemma_plain_line_is_one_command(line: Seq<char>)
    requires
        forall|i: int| 0 <= i < line.len() ==> line[i] != ';',
        forall|i: int| !chain_at(line, i),
        words_of(line).len() > 0,
        words_of(line).last() != background_mark(),
    ensures
        plan_of(line).len() == 1,
        plan_of(line)[0].len() == 1,
        plan_of(line)[0][0].tokens == words_of(line),
        !plan_of(line)[0][0].background,
{
    lemma_line_without_delimiters(line);
}

/// A line that holds neither `;` nor `&&` and ends in the background mark
/// after at least one other token has a plan of one background command, whose
/// tokens are those of the line without the mark.
pub proof fn lemma_background_line_is_one_command(line: Seq<char>)
    requires
        forall|i: int| 0 <= i < line.len() ==> line[i] != ';',
        forall|i: int| !chain_at(line, i),
        words_of(line).len() > 1,
        words_of(line).last() == background_mark(),
    ensures
        plan_of(line).len() == 1,
        plan_of(line)[0].len() == 1,
        plan_of(line)[0][0].tokens == words_of(line).drop_last(),
        plan_of(line)[0][0].background,
{
    lemma_line_without_delimiters(line);
}

/// Tokenizing is a function of the text: two plans made from equal lines
/// have the same shape and hold the same commands.
pub proof fn lemma_equal_lines_equal_plans(
    first: Vec<Vec<DependentCommand>>,
    second: Vec<Vec<DependentCommand>>,
    line: Seq<char>,
)
    requires
        plan_model(first@) == plan_of(line),
        plan_model(second@) == plan_of(line),
    ensures
        plan_model(first@) == plan_model(second@),
        first@.len() == second@.len(),
        forall|g: int| 0 <= g < first@.len() ==> (#[trigger] first@[g])@.len() == second@[g]@.len(),
        forall|g: int, c: int|
            0 <= g < first@.len() && 0 <= c < first@[g]@.len() ==> (#[trigger] first@[g]@[c])@
                == second@[g]@[c]@,
{
    let a = plan_model(first@);
    let b = plan_model(second@);
    assert(a.len() == first@.len() && b.len() == second@.len());
    assert forall|g: int| 0 <= g < first@.len() implies (#[trigger] first@[g])@.len()
        == second@[g]@.len() by {
        assert(a[g] == group_model(first@[g]@));
        assert(b[g] == group_model(second@[g]@));
    }
    assert forall|g: int, c: int|
        0 <= g < first@.len() && 0 <= c < first@[g]@.len() implies (#[trigger] first@[g]@[c])@
        == second@[g]@[c]@ by {
        assert(a[g] == group_model(first@[g]@));
        assert(b[g] == group_model(second@[g]@));
        assert(a[g][c] == first@[g]@[c]@);
        assert(b[g][c] == second@[g]@[c]@);
    }
}

} // verus!
