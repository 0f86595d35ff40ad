//! Simulation scripts: Elm files that end with instructions for edits to
//! replay, used to test how elm-pair responds to changes.
//!
//! The code comes first. A line ending in `START SIMULATION` starts the
//! script; what comes before `START SIMULATION` on that line is the padding
//! each instruction line starts with (typically a comment marker). The
//! script ends with the line `END SIMULATION`.
use vstd::prelude::*;
use vstd::utf8::{decode_utf8, encode_utf8, is_char_boundary};
use crate::module_name::join_with;
use crate::text::{split_on, split_str, strs_view};

verus! {

/// An instruction of a simulation script.
#[derive(Debug, Clone, PartialEq, Eq)]
pub enum Step {
    /// Make the file whose path ends in this path the current one.
    OpenFile(String),
    /// Move the cursor to the first occurrence of the word on the line.
    MoveCursor { line: usize, word: String },
    /// Insert text at the cursor.
    Insert(String),
    /// Delete this text at the cursor.
    Delete(String),
}

/// The mathematical form of [`Step`].
pub enum SpecStep {
    OpenFile(Seq<char>),
    MoveCursor { line: usize, word: Seq<char> },
    Insert(Seq<char>),
    Delete(Seq<char>),
}

impl View for Step {
    type V = SpecStep;

    open spec fn view(&self) -> SpecStep {
        match self {
            Step::OpenFile(p) => SpecStep::OpenFile(p@),
            Step::MoveCursor { line, word } => SpecStep::MoveCursor { line: *line, word: word@ },
            Step::Insert(s) => SpecStep::Insert(s@),
            Step::Delete(s) => SpecStep::Delete(s@),
        }
    }
}

/// Why a simulation script could not be read.
#[derive(Debug, Clone, PartialEq, Eq)]
pub enum Error {
    /// An instruction line that is no instruction.
    CannotParseSimulationLine(String),
    /// A `MOVE CURSOR TO LINE` instruction whose line is no number.
    CannotParseLineNumber(String),
    /// The file ended before `END SIMULATION`.
    FileEndCameBeforeSimulationEnd,
    /// An instruction line does not start with the padding.
    SimulationInstructionsDontHaveConsistentPadding,
}

/// The mathematical form of [`Error`].
pub enum SpecError {
    CannotParseSimulationLine(Seq<char>),
    CannotParseLineNumber(Seq<char>),
    FileEndCameBeforeSimulationEnd,
    SimulationInstructionsDontHaveConsistentPadding,
}

impl View for Error {
    type V = SpecError;

    open spec fn view(&self) -> SpecError {
        match self {
            Error::CannotParseSimulationLine(l) => SpecError::CannotParseSimulationLine(l@),
            Error::CannotParseLineNumber(l) => SpecError::CannotParseLineNumber(l@),
            Error::FileEndCameBeforeSimulationEnd => SpecError::FileEndCameBeforeSimulationEnd,
            Error::SimulationInstructionsDontHaveConsistentPadding => {
                SpecError::SimulationInstructionsDontHaveConsistentPadding
            },
        }
    }
}

/// `piece` without one `\r` at its end.
pub open spec fn without_cr(piece: Seq<char>) -> Seq<char> {
    if piece.len() > 0 && piece.last() == '\r' {
        piece.drop_last()
    } else {
        piece
    }
}

/// The lines of `s`, as `str::lines` gives them: split at `\n` and `\r\n`,
/// without the line endings, and without an empty line after a final line
/// ending.
pub open spec fn spec_lines(s: Seq<char>) -> Seq<Seq<char>> {
    let pieces = split_on(s, '\n');
    let n = pieces.len() as int;
    let count = if pieces[n - 1].len() == 0 {
        n - 1
    } else {
        n
    };
    Seq::new(
        count as nat,
        |i: int|
            if i < n - 1 {
                without_cr(pieces[i])
            } else {
                pieces[i]
            },
    )
}

/// The lines of `s`, as `str::lines` gives them.
pub fn lines<'a>(s: &'a str) -> (r: Vec<&'a str>)
    ensures
        strs_view(r@) == spec_lines(s@),
{
    let pieces = split_str(s, '\n');
    proof {
        crate::text::lemma_split_on_nonempty(s@, '\n');
    }
    let ghost ps = strs_view(pieces@);
    let n = pieces.len();
    let count = if pieces[n - 1].unicode_len() == 0 {
        n - 1
    } else {
        n
    };
    assert(pieces[n - 1]@ == ps[n - 1]);
    let mut out: Vec<&'a str> = Vec::new();
    let mut i: usize = 0;
    while i < count
        invariant
            ps == strs_view(pieces@),
            ps == split_on(s@, '\n'),
            n == ps.len(),
            count <= n,
            i <= count,
            count == if ps[n - 1].len() == 0 {
                n - 1
            } else {
                n as int
            },
            strs_view(out@) =~= spec_lines(s@).take(i as int),
        decreases count - i,
    {
        let piece = pieces[i];
        assert(piece@ == ps[i as int]);
        let len = piece.unicode_len();
        let line = if i + 1 < n && len > 0 && piece.get_char(len - 1) == '\r' {
            piece.substring_char(0, len - 1)
        } else {
            piece
        };
        assert(line@ == spec_lines(s@)[i as int]) by {
            if i + 1 < n && len > 0 && piece@[len - 1] == '\r' {
                assert(line@ =~= ps[i as int].drop_last());
            }
        }
        let ghost prev = strs_view(out@);
        out.push(line);
        assert(strs_view(out@) =~= prev.push(line@));
        assert(strs_view(out@) =~= spec_lines(s@).take(i + 1));
        i = i + 1;
    }
    assert(spec_lines(s@).take(count as int) =~= spec_lines(s@));
    out
}

/// The words that end the line starting a script.
pub open spec fn start_marker() -> Seq<char> {
    "START SIMULATION"@
}

/// Whether `line` starts a script: it ends in `START SIMULATION`.
pub open spec fn starts_script(line: Seq<char>) -> bool {
    line.len() >= start_marker().len() && line.skip(line.len() - start_marker().len())
        == start_marker()
}

/// The index of the first line from `i` on that starts a script.
pub open spec fn script_start(ls: Seq<Seq<char>>, i: int) -> Option<int>
    decreases ls.len() - i,
{
    if i < 0 || i >= ls.len() {
        None
    } else if starts_script(ls[i]) {
        Some(i)
    } else {
        script_start(ls, i + 1)
    }
}

/// The part of `line` from byte `padding` on, as `str::get(padding..)`
/// gives it: `None` when that is no character boundary.
pub open spec fn after_padding(line: Seq<char>, padding: nat) -> Option<Seq<char>> {
    let bytes = encode_utf8(line);
    if is_char_boundary(bytes, padding as int) {
        Some(decode_utf8(bytes.subrange(padding as int, bytes.len() as int)))
    } else {
        None
    }
}

/// Whether `s` is a `usize` as `str::parse::<usize>` reads it.
pub open spec fn is_usize_text(s: Seq<char>) -> bool {
    crate::text::is_u64_text(s) && crate::text::digits_value(crate::text::unsigned_digits(s))
        <= usize::MAX
}

/// What one instruction line (without its padding) says.
pub enum Instruction {
    End,
    Step(SpecStep),
    Fail(SpecError),
}

/// Reads one instruction line (without its padding), split at spaces.
pub open spec fn spec_instruction(line: Seq<char>) -> Instruction {
    let w = split_on(line, ' ');
    if w.len() == 2 && w[0] == "END"@ && w[1] == "SIMULATION"@ {
        Instruction::End
    } else if w.len() == 3 && w[0] == "OPEN"@ && w[1] == "FILE"@ {
        Instruction::Step(SpecStep::OpenFile(w[2]))
    } else if w.len() >= 5 && w[0] == "MOVE"@ && w[1] == "CURSOR"@ && w[2] == "TO"@ && w[3]
        == "LINE"@ {
        if is_usize_text(w[4]) {
            Instruction::Step(
                SpecStep::MoveCursor {
                    line: crate::text::digits_value(crate::text::unsigned_digits(w[4])) as usize,
                    word: join_with(w.skip(5), ' '),
                },
            )
        } else {
            Instruction::Fail(SpecError::CannotParseLineNumber(line))
        }
    } else if w[0] == "INSERT"@ {
        Instruction::Step(SpecStep::Insert(join_with(w.skip(1), ' ')))
    } else if w[0] == "DELETE"@ {
        Instruction::Step(SpecStep::Delete(join_with(w.skip(1), ' ')))
    } else {
        Instruction::Fail(SpecError::CannotParseSimulationLine(line))
    }
}

/// The steps of the script whose instructions start at line `i` of `ls`,
/// after the steps `acc` already read; lines start with `padding` bytes.
pub open spec fn spec_script(ls: Seq<Seq<char>>, i: int, padding: nat, acc: Seq<SpecStep>) -> Result<
    Seq<SpecStep>,
    SpecError,
>
    decreases ls.len() - i,
{
    if i < 0 || i >= ls.len() {
        Err(SpecError::FileEndCameBeforeSimulationEnd)
    } else {
        match after_padding(ls[i], padding) {
            None => Err(SpecError::SimulationInstructionsDontHaveConsistentPadding),
            Some(line) => match spec_instruction(line) {
                Instruction::End => Ok(acc),
                Instruction::Fail(e) => Err(e),
                Instruction::Step(s) => spec_script(ls, i + 1, padding, acc.push(s)),
            },
        }
    }
}

/// What reading the simulation file at `path` with contents `source` gives:
/// the code before the script (its lines joined with `\n`), and the steps
/// of the script, starting with opening the file itself; no steps when the
/// file holds no script.
pub open spec fn spec_create(path: Seq<char>, source: Seq<char>) -> Result<
    (Seq<char>, Option<Seq<SpecStep>>),
    SpecError,
> {
    let ls = spec_lines(source);
    match script_start(ls, 0) {
        None => Ok((join_with(ls, '\n'), None)),
        Some(k) => {
            let marker_line = ls[k];
            let padding = encode_utf8(
                marker_line.take(marker_line.len() - start_marker().len()),
            ).len();
            match spec_script(ls, k + 1, padding, seq![SpecStep::OpenFile(path)]) {
                Ok(steps) => Ok((join_with(ls.take(k), '\n'), Some(steps))),
                Err(e) => Err(e),
            }
        },
    }
}

/// Whether the words `w` are the texts `expected`.
fn words_are(w: &Vec<&str>, expected: &Vec<&str>) -> (r: bool)
    ensures
        r == (strs_view(w@) == strs_view(expected@)),
{
    if w.len() != expected.len() {
        assert(strs_view(w@).len() != strs_view(expected@).len());
        return false;
    }
    let mut i: usize = 0;
    while i < w.len()
        invariant
            w@.len() == expected@.len(),
            i <= w@.len(),
            forall|j: int| 0 <= j < i ==> w@[j]@ == expected@[j]@,
        decreases w.len() - i,
    {
        if !crate::text::same_text(w[i], expected[i]) {
            assert(strs_view(w@)[i as int] != strs_view(expected@)[i as int]);
            return false;
        }
        i = i + 1;
    }
    assert(strs_view(w@) =~= strs_view(expected@));
    true
}

/// The texts `parts` from index `from` on, joined with `sep`.
fn join_from(parts: &Vec<&str>, from: usize, sep: &str) -> (r: String)
    requires
        from <= parts@.len(),
        sep@.len() == 1,
    ensures
        r@ == join_with(strs_view(parts@).skip(from as int), sep@[0]),
{
    let ghost ps = strs_view(parts@).skip(from as int);
    let mut out = String::new();
    let mut i: usize = from;
    assert(ps.take(0) =~= Seq::<Seq<char>>::empty());
    while i < parts.len()
        invariant
            from <= i <= parts@.len(),
            sep@.len() == 1,
            ps == strs_view(parts@).skip(from as int),
            out@ == join_with(ps.take(i - from), sep@[0]),
        decreases parts.len() - i,
    {
        let ghost before = ps.take(i - from);
        assert(ps.take(i - from + 1).drop_last() =~= before);
        assert(ps.take(i - from + 1).last() == parts@[i as int]@);
        if i > from {
            out.append(sep);
            assert(sep@ =~= seq![sep@[0]]);
        }
        out.append(parts[i]);
        assert(out@ =~= join_with(ps.take(i - from + 1), sep@[0]));
        i = i + 1;
    }
    assert(ps.take(parts@.len() - from) =~= ps);
    out
}

/// Reads one instruction line (without its padding).
fn instruction(line: &str) -> (r: Result<Option<Step>, Error>)
    ensures
        match spec_instruction(line@) {
            Instruction::End => r matches Ok(None),
            Instruction::Step(s) => r matches Ok(Some(st)) && st@ == s,
            Instruction::Fail(e) => r matches Err(err) && err@ == e,
        },
{
    proof {
        reveal_strlit("END");
        reveal_strlit("SIMULATION");
        reveal_strlit("OPEN");
        reveal_strlit("FILE");
        reveal_strlit("MOVE");
        reveal_strlit("CURSOR");
        reveal_strlit("TO");
        reveal_strlit("LINE");
        reveal_strlit("INSERT");
        reveal_strlit("DELETE");
        reveal_strlit(" ");
    }
    let w = split_str(line, ' ');
    proof {
        crate::text::lemma_split_on_nonempty(line@, ' ');
    }
    let ghost ws = strs_view(w@);
    let end_words = vec!["END", "SIMULATION"];
    assert(strs_view(end_words@) =~= seq!["END"@, "SIMULATION"@]);
    if words_are(&w, &end_words) {
        return Ok(None);
    }
    assert(!(ws.len() == 2 && ws[0] == "END"@ && ws[1] == "SIMULATION"@)) by {
        if ws.len() == 2 && ws[0] == "END"@ && ws[1] == "SIMULATION"@ {
            assert(ws =~= seq!["END"@, "SIMULATION"@]);
        }
    }
    let first = w[0];
    assert(first@ == ws[0]);
    if w.len() == 3 && crate::text::same_text(first, "OPEN") && crate::text::same_text(w[1], "FILE") {
        return Ok(Some(Step::OpenFile(w[2].to_string())));
    }
    if w.len() >= 5 && crate::text::same_text(first, "MOVE") && crate::text::same_text(w[1], "CURSOR")
        && crate::text::same_text(w[2], "TO") && crate::text::same_text(w[3], "LINE") {
        let number = match crate::text::parse_u64(w[4]) {
            Some(n) => n,
            None => {
                return Err(Error::CannotParseLineNumber(line.to_string()));
            },
        };
        if number > usize::MAX as u64 {
            return Err(Error::CannotParseLineNumber(line.to_string()));
        }
        let word = join_from(&w, 5, " ");
        return Ok(Some(Step::MoveCursor { line: number as usize, word }));
    }
    if crate::text::same_text(first, "INSERT") {
        return Ok(Some(Step::Insert(join_from(&w, 1, " "))));
    }
    if crate::text::same_text(first, "DELETE") {
        return Ok(Some(Step::Delete(join_from(&w, 1, " "))));
    }
    Err(Error::CannotParseSimulationLine(line.to_string()))
}

/// The part of `line` from byte `padding` on, as `str::get(padding..)`
/// gives it.
fn after_padding_of<'a>(line: &'a str, padding: usize) -> (r: Option<&'a str>)
    ensures
        match after_padding(line@, padding as nat) {
            Some(rest) => r matches Some(s) && s@ == rest,
            None => r is None,
        },
{
    if line.is_char_boundary(padding) {
        let (_, rest) = line.split_at(padding);
        proof {
            vstd::utf8::encode_utf8_decode_utf8(rest@);
        }
        Some(rest)
    } else {
        None
    }
}

/// Reads a simulation file at `path` with contents `source`: the code
/// before the script, and the script's steps (starting with opening the
/// file itself), if it has one.
pub fn create(path: &str, source: &str) -> (r: Result<(String, Option<Vec<Step>>), Error>)
    ensures
        match spec_create(path@, source@) {
            Ok((code, None)) => r matches Ok((c, None)) && c@ == code,
            Ok((code, Some(steps))) => r matches Ok((c, Some(st))) && c@ == code && st@.map_values(
                |s: Step| s@,
            ) == steps,
            Err(e) => r matches Err(err) && err@ == e,
        },
{
    let ls = lines(source);
    let ghost lsv = strs_view(ls@);
    let marker = "START SIMULATION";
    let m = marker.unicode_len();
    proof {
        reveal_strlit("START SIMULATION");
        assert(marker@ == start_marker());
    }
    let mut code = String::new();
    let mut k: usize = 0;
    assert(lsv.take(0) =~= Seq::<Seq<char>>::empty());
    loop
        invariant_except_break
            lsv == strs_view(ls@),
            m == start_marker().len(),
            marker@ == start_marker(),
            k <= ls@.len(),
            script_start(lsv, 0) == script_start(lsv, k as int),
            code@ == join_with(lsv.take(k as int), '\n'),
        ensures
            lsv == strs_view(ls@),
            m == start_marker().len(),
            k <= ls@.len(),
            script_start(lsv, 0) == script_start(lsv, k as int),
            code@ == join_with(lsv.take(k as int), '\n'),
            k < ls@.len() ==> starts_script(lsv[k as int]),
        decreases ls@.len() - k,
    {
        if k == ls.len() {
            break;
        }
        let line = ls[k];
        assert(line@ == lsv[k as int]);
        let n = line.unicode_len();
        if n >= m && crate::text::same_text(line.substring_char(n - m, n), marker) {
            assert(line@.skip(n - m) =~= line@.subrange(n - m, n as int));
            break;
        }
        assert(!starts_script(lsv[k as int])) by {
            if starts_script(lsv[k as int]) {
                assert(line@.skip(n - m) =~= line@.subrange(n - m, n as int));
            }
        }
        let ghost before = code@;
        if k > 0 {
            code.append("\n");
            proof {
                reveal_strlit("\n");
            }
        }
        code.append(line);
        assert(lsv.take(k + 1).drop_last() =~= lsv.take(k as int));
        assert(lsv.take(k + 1).last() == lsv[k as int]);
        assert(code@ =~= join_with(lsv.take(k + 1), '\n'));
        k = k + 1;
    }
    if k == ls.len() {
        assert(lsv.take(k as int) =~= lsv);
        assert(script_start(lsv, k as int) is None);
        return Ok((code, None));
    }
    let marker_line = ls[k];
    assert(marker_line@ == lsv[k as int]);
    let n = marker_line.unicode_len();
    let head = marker_line.substring_char(0, n - m);
    let padding = head.as_bytes().len();
    assert(head@ =~= marker_line@.take(n - m));
    assert(script_start(lsv, 0) == Some(k as int));
    assert(lsv == spec_lines(source@));
    assert(padding == encode_utf8(head@).len());
    assert(padding == encode_utf8(lsv[k as int].take(lsv[k as int].len() - start_marker().len())).len());
    let mut steps: Vec<Step> = vec![Step::OpenFile(path.to_string())];
    let mut i: usize = k + 1;
    let ghost target = spec_script(lsv, k + 1, padding as nat, seq![SpecStep::OpenFile(path@)]);
    assert(steps@.map_values(|s: Step| s@) =~= seq![SpecStep::OpenFile(path@)]);
    assert(spec_create(path@, source@) == match target {
        Ok(st) => Ok((join_with(lsv.take(k as int), '\n'), Some(st))),
        Err(e) => Err(e),
    });
    loop
        invariant
            lsv == strs_view(ls@),
            k < i <= ls@.len(),
            code@ == join_with(lsv.take(k as int), '\n'),
            spec_create(path@, source@) == match target {
                Ok(st) => Ok((join_with(lsv.take(k as int), '\n'), Some(st))),
                Err(e) => Err(e),
            },
            target == spec_script(lsv, i as int, padding as nat, steps@.map_values(|s: Step| s@)),
        decreases ls@.len() - i,
    {
        if i == ls.len() {
            return Err(Error::FileEndCameBeforeSimulationEnd);
        }
        let line = ls[i];
        assert(line@ == lsv[i as int]);
        let rest = match after_padding_of(line, padding) {
            Some(rest) => rest,
            None => {
                return Err(Error::SimulationInstructionsDontHaveConsistentPadding);
            },
        };
        match instruction(rest) {
            Err(e) => {
                return Err(e);
            },
            Ok(None) => {
                return Ok((code, Some(steps)));
            },
            Ok(Some(step)) => {
                let ghost before = steps@.map_values(|s: Step| s@);
                steps.push(step);
                assert(steps@.map_values(|s: Step| s@) =~= before.push(step@));
            },
        }
        i = i + 1;
    }
}

} // verus!
