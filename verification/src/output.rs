//! Translation of execution results into a human-readable transcript.
//!
//! The runtime hands back per-shot registers of bytes; the recorded-output
//! schedule from transpilation says which offsets to read and how to group
//! them. The debug format prints one bracketed line per event and per shot.

use vstd::prelude::*;
use vstd::string::StringExecFns;

use crate::text::{dec_digits, dec_int, push_i64_decimal, push_u64_decimal};
use crate::RecordedOutput;

verus! {

/// All errors that may be returned from [`try_format`].
#[derive(Debug)]
pub enum Error {
    /// The register data is of a kind that is not implemented; carries its
    /// description.
    UnimplementedResultType(String),
    /// The recorded-output event is of a kind that is not implemented;
    /// carries its description.
    UnimplementedRecordType(String),
    /// Register data was indexed out of range: no data for this shot id at
    /// this offset.
    NoShotDataAtIndex(usize, usize),
}

/// Spec-level mirror of [`Error`].
pub ghost enum ErrorView {
    UnimplementedResultType(Seq<char>),
    UnimplementedRecordType(Seq<char>),
    NoShotDataAtIndex(usize, usize),
}

impl View for Error {
    type V = ErrorView;

    open spec fn view(&self) -> ErrorView {
        match self {
            Error::UnimplementedResultType(s) => ErrorView::UnimplementedResultType(s@),
            Error::UnimplementedRecordType(s) => ErrorView::UnimplementedRecordType(s@),
            Error::NoShotDataAtIndex(shot, idx) => ErrorView::NoShotDataAtIndex(*shot, *idx),
        }
    }
}

/// Execution results, one register of bytes per shot. Kinds of register
/// data other than bytes are not formatted; such a value carries its
/// description for the error message.
pub enum RegisterData {
    I8(Vec<Vec<i8>>),
    Unsupported(String),
}

/// Spec-level mirror of [`RegisterData`].
pub ghost enum RegisterDataView {
    I8(Seq<Seq<i8>>),
    Unsupported(Seq<char>),
}

impl View for RegisterData {
    type V = RegisterDataView;

    open spec fn view(&self) -> RegisterDataView {
        match self {
            RegisterData::I8(shots) => RegisterDataView::I8(shots.deep_view()),
            RegisterData::Unsupported(s) => RegisterDataView::Unsupported(s@),
        }
    }
}

/// `[shot:<id>` followed by the given suffix.
pub open spec fn shot_line(shot_id: int, suffix: Seq<char>) -> Seq<char> {
    "[shot:"@ + dec_digits(shot_id as nat) + suffix
}

/// The line for one readout value.
pub open spec fn result_line(shot_id: int, v: i8) -> Seq<char> {
    "[shot:"@ + dec_digits(shot_id as nat) + " result "@ + dec_int(v as int) + "]"@
}

/// The description of an unimplemented record event.
pub open spec fn unimplemented_event_text(ev: RecordedOutput) -> Seq<char> {
    match ev {
        RecordedOutput::BoolReadoutOffset(k) => "BoolReadoutOffset("@ + dec_digits(k as nat)
            + ")"@,
        RecordedOutput::IntegerReadoutOffset(k) => "IntegerReadoutOffset("@ + dec_digits(k as nat)
            + ")"@,
        RecordedOutput::DoubleReadoutOffset(k) => "DoubleReadoutOffset("@ + dec_digits(k as nat)
            + ")"@,
        _ => Seq::<char>::empty(),
    }
}

/// The lines of one shot's transcript, walking the schedule from event `j`:
/// `ShotEnd` closes the shot early; a readout offset must lie inside the
/// shot's register.
pub open spec fn format_shot(
    shot: Seq<i8>,
    shot_id: int,
    mapping: Seq<RecordedOutput>,
    j: int,
    acc: Seq<Seq<char>>,
) -> Result<Seq<Seq<char>>, ErrorView>
    decreases mapping.len() - j,
{
    if j >= mapping.len() {
        Ok(acc)
    } else {
        match mapping[j] {
            RecordedOutput::ShotStart => format_shot(
                shot,
                shot_id,
                mapping,
                j + 1,
                acc.push(shot_line(shot_id, " start]"@)),
            ),
            RecordedOutput::ShotEnd => Ok(acc.push(shot_line(shot_id, " end]"@))),
            RecordedOutput::ResultReadoutOffset(k) => if (k as int) < shot.len() {
                format_shot(shot, shot_id, mapping, j + 1, acc.push(result_line(shot_id, shot[k as int])))
            } else {
                Err(ErrorView::NoShotDataAtIndex(shot_id as usize, k as usize))
            },
            RecordedOutput::BoolReadoutOffset(_) => Err(
                ErrorView::UnimplementedRecordType(unimplemented_event_text(mapping[j])),
            ),
            RecordedOutput::IntegerReadoutOffset(_) => Err(
                ErrorView::UnimplementedRecordType(unimplemented_event_text(mapping[j])),
            ),
            RecordedOutput::DoubleReadoutOffset(_) => Err(
                ErrorView::UnimplementedRecordType(unimplemented_event_text(mapping[j])),
            ),
            RecordedOutput::TupleStart => format_shot(
                shot,
                shot_id,
                mapping,
                j + 1,
                acc.push(shot_line(shot_id, " tuple_start]"@)),
            ),
            RecordedOutput::TupleEnd => format_shot(
                shot,
                shot_id,
                mapping,
                j + 1,
                acc.push(shot_line(shot_id, " tuple_end]"@)),
            ),
            RecordedOutput::ArrayStart => format_shot(
                shot,
                shot_id,
                mapping,
                j + 1,
                acc.push(shot_line(shot_id, " array_start]"@)),
            ),
            RecordedOutput::ArrayEnd => format_shot(
                shot,
                shot_id,
                mapping,
                j + 1,
                acc.push(shot_line(shot_id, " array_end]"@)),
            ),
        }
    }
}

/// The whole transcript: shots in order, each numbered from 1.
pub open spec fn format_shots(
    shots: Seq<Seq<i8>>,
    i: int,
    mapping: Seq<RecordedOutput>,
    acc: Seq<Seq<char>>,
) -> Result<Seq<Seq<char>>, ErrorView>
    decreases shots.len() - i,
{
    if i >= shots.len() {
        Ok(acc)
    } else {
        match format_shot(shots[i], i + 1, mapping, 0, acc) {
            Ok(acc2) => format_shots(shots, i + 1, mapping, acc2),
            Err(e) => Err(e),
        }
    }
}

/// The debug transcript of one execution result under a schedule.
pub open spec fn debug_format_spec(
    data: RegisterDataView,
    mapping: Seq<RecordedOutput>,
) -> Result<Seq<Seq<char>>, ErrorView> {
    match data {
        RegisterDataView::I8(shots) => format_shots(shots, 0, mapping, Seq::<Seq<char>>::empty()),
        RegisterDataView::Unsupported(d) => Err(ErrorView::UnimplementedResultType(d)),
    }
}

/// Formats output of QIR programs in a debug-friendly structure: the lines
/// of the transcript, in order.
pub struct DebugOutputFormat(pub Vec<String>);

impl View for DebugOutputFormat {
    type V = Seq<Seq<char>>;

    open spec fn view(&self) -> Seq<Seq<char>> {
        self.0.deep_view()
    }
}

/// Build `[shot:<id><suffix>`.
fn make_shot_line(shot_id: usize, suffix: &str) -> (s: String)
    ensures
        s@ == shot_line(shot_id as int, suffix@),
{
    let mut s = String::new();
    s.append("[shot:");
    push_u64_decimal(&mut s, shot_id as u64);
    s.append(suffix);
    proof {
        assert(s@ =~= shot_line(shot_id as int, suffix@));
    }
    s
}

/// Build the line for one readout value.
fn make_result_line(shot_id: usize, v: i8) -> (s: String)
    ensures
        s@ == result_line(shot_id as int, v),
{
    let mut s = String::new();
    s.append("[shot:");
    push_u64_decimal(&mut s, shot_id as u64);
    s.append(" result ");
    push_i64_decimal(&mut s, v as i64);
    s.append("]");
    proof {
        assert(s@ =~= result_line(shot_id as int, v));
    }
    s
}

/// Build the description of an unimplemented record event.
fn make_unimplemented_text(ev: &RecordedOutput) -> (s: String)
    requires
        ev is BoolReadoutOffset || ev is IntegerReadoutOffset || ev is DoubleReadoutOffset,
    ensures
        s@ == unimplemented_event_text(*ev),
{
    let mut s = String::new();
    match ev {
        RecordedOutput::BoolReadoutOffset(k) => {
            s.append("BoolReadoutOffset(");
            push_u64_decimal(&mut s, *k);
            s.append(")");
        },
        RecordedOutput::IntegerReadoutOffset(k) => {
            s.append("IntegerReadoutOffset(");
            push_u64_decimal(&mut s, *k);
            s.append(")");
        },
        RecordedOutput::DoubleReadoutOffset(k) => {
            s.append("DoubleReadoutOffset(");
            push_u64_decimal(&mut s, *k);
            s.append(")");
        },
        _ => {},
    }
    proof {
        assert(s@ =~= unimplemented_event_text(*ev));
    }
    s
}

/// Append one shot's lines to `lines`.
fn format_one_shot(
    shot: &Vec<i8>,
    shot_id: usize,
    mapping: &[RecordedOutput],
    lines: &mut Vec<String>,
) -> (r: Result<(), Error>)
    ensures
        match r {
            Ok(()) => format_shot(shot@, shot_id as int, mapping@, 0, old(lines).deep_view())
                == Ok::<Seq<Seq<char>>, ErrorView>(final(lines).deep_view()),
            Err(e) => format_shot(shot@, shot_id as int, mapping@, 0, old(lines).deep_view())
                == Err::<Seq<Seq<char>>, ErrorView>(e@),
        },
{
    let n = mapping.len();
    let mut j: usize = 0;
    while j < n
        invariant
            j <= n,
            n == mapping@.len(),
            mapping@.len() == n,
            format_shot(shot@, shot_id as int, mapping@, 0, old(lines).deep_view())
                == format_shot(
                shot@,
                shot_id as int,
                mapping@,
                j as int,
                lines.deep_view(),
            ),
        decreases n - j,
    {
        proof {
            assert(mapping@[j as int] == mapping@[j as int]);
        }
        let ghost prev = lines.deep_view();
        match mapping[j] {
            RecordedOutput::ShotStart => {
                let line = make_shot_line(shot_id, " start]");
                let ghost lv = line@;
                lines.push(line);
                proof {
                    assert(lines.deep_view() =~= prev.push(lv));
                }
            },
            RecordedOutput::ShotEnd => {
                let line = make_shot_line(shot_id, " end]");
                let ghost lv = line@;
                lines.push(line);
                proof {
                    assert(lines.deep_view() =~= prev.push(lv));
                }
                return Ok(());
            },
            RecordedOutput::ResultReadoutOffset(k) => {
                if k < shot.len() as u64 {
                    let line = make_result_line(shot_id, shot[k as usize]);
                    let ghost lv = line@;
                    lines.push(line);
                    proof {
                        assert(lines.deep_view() =~= prev.push(lv));
                    }
                } else {
                    return Err(Error::NoShotDataAtIndex(shot_id, k as usize));
                }
            },
            RecordedOutput::BoolReadoutOffset(_) => {
                return Err(Error::UnimplementedRecordType(make_unimplemented_text(&mapping[j])));
            },
            RecordedOutput::IntegerReadoutOffset(_) => {
                return Err(Error::UnimplementedRecordType(make_unimplemented_text(&mapping[j])));
            },
            RecordedOutput::DoubleReadoutOffset(_) => {
                return Err(Error::UnimplementedRecordType(make_unimplemented_text(&mapping[j])));
            },
            RecordedOutput::TupleStart => {
                let line = make_shot_line(shot_id, " tuple_start]");
                let ghost lv = line@;
                lines.push(line);
                proof {
                    assert(lines.deep_view() =~= prev.push(lv));
                }
            },
            RecordedOutput::TupleEnd => {
                let line = make_shot_line(shot_id, " tuple_end]");
                let ghost lv = line@;
                lines.push(line);
                proof {
                    assert(lines.deep_view() =~= prev.push(lv));
                }
            },
            RecordedOutput::ArrayStart => {
                let line = make_shot_line(shot_id, " array_start]");
                let ghost lv = line@;
                lines.push(line);
                proof {
                    assert(lines.deep_view() =~= prev.push(lv));
                }
            },
            RecordedOutput::ArrayEnd => {
                let line = make_shot_line(shot_id, " array_end]");
                let ghost lv = line@;
                lines.push(line);
                proof {
                    assert(lines.deep_view() =~= prev.push(lv));
                }
            },
        }
        j += 1;
    }
    Ok(())
}

impl DebugOutputFormat {
    /// Build the transcript of an execution result under a schedule. Fails
    /// on unimplemented register or record kinds and on a readout offset
    /// outside a shot's register.
    pub fn try_new(result: &RegisterData, mapping: &[RecordedOutput]) -> (r: Result<
        DebugOutputFormat,
        Error,
    >)
        ensures
            match r {
                Ok(out) => debug_format_spec(result@, mapping@) == Ok::<
                    Seq<Seq<char>>,
                    ErrorView,
                >(out@),
                Err(e) => debug_format_spec(result@, mapping@) == Err::<
                    Seq<Seq<char>>,
                    ErrorView,
                >(e@),
            },
    {
        let shots = match result {
            RegisterData::I8(shots) => shots,
            RegisterData::Unsupported(d) => {
                return Err(Error::UnimplementedResultType(d.clone()));
            },
        };
        let mut lines: Vec<String> = Vec::new();
        proof {
            assert(lines.deep_view() =~= Seq::<Seq<char>>::empty());
        }
        let n = shots.len();
        let mut i: usize = 0;
        while i < n
            invariant
                i <= n,
                n == shots@.len(),
                shots.deep_view().len() == n,
                result@ == RegisterDataView::I8(shots.deep_view()),
                format_shots(shots.deep_view(), 0, mapping@, Seq::<Seq<char>>::empty())
                    == format_shots(shots.deep_view(), i as int, mapping@, lines.deep_view()),
            decreases n - i,
        {
            proof {
                assert(shots.deep_view()[i as int] == shots@[i as int]@);
            }
            match format_one_shot(&shots[i], i + 1, mapping, &mut lines) {
                Ok(()) => {},
                Err(e) => {
                    return Err(e);
                },
            }
            i += 1;
        }
        Ok(DebugOutputFormat(lines))
    }

    /// The transcript as one text, lines joined by newlines.
    pub fn to_text(&self) -> (s: String)
        ensures
            s@ == joined_lines(self@, 0),
    {
        let mut s = String::new();
        let n = self.0.len();
        let mut i: usize = 0;
        while i < n
            invariant
                i <= n,
                n == self.0@.len(),
                self@.len() == n,
                s@ + joined_lines(self@, i as int) == joined_lines(self@, 0),
            decreases n - i,
        {
            proof {
                assert(self@[i as int] == self.0@[i as int]@);
            }
            s.append(self.0[i].as_str());
            if i + 1 < n {
                s.append("\n");
            }
            proof {
                assert(s@ + joined_lines(self@, i + 1) =~= joined_lines(self@, 0));
            }
            i += 1;
        }
        proof {
            assert(s@ =~= joined_lines(self@, 0));
        }
        s
    }
}

/// The lines from `i` on, joined by newlines.
pub open spec fn joined_lines(lines: Seq<Seq<char>>, i: int) -> Seq<char>
    decreases lines.len() - i,
{
    if i >= lines.len() {
        Seq::<char>::empty()
    } else if i == lines.len() - 1 {
        lines[i]
    } else {
        lines[i] + "\n"@ + joined_lines(lines, i + 1)
    }
}

/// Format program output for humans: the debug transcript as one text.
pub fn try_format(result: &RegisterData, mapping: &[RecordedOutput]) -> (r: Result<String, Error>)
    ensures
        match r {
            Ok(s) => debug_format_spec(result@, mapping@) matches Ok(lines) && s@
                == joined_lines(lines, 0),
            Err(e) => debug_format_spec(result@, mapping@) == Err::<
                Seq<Seq<char>>,
                ErrorView,
            >(e@),
        },
{
    let out = DebugOutputFormat::try_new(result, mapping)?;
    Ok(out.to_text())
}

} // verus!
