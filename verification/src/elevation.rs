use vstd::prelude::*;

use crate::backend::WindowsBackendError;

verus! {

/// The elevation state of the current regxorder process.
#[derive(Debug, Clone, Copy, PartialEq, Eq, Structural)]
pub enum ProcessElevationStatus {
    Elevated,
    NotElevated,
}

/// Turns the queried elevation state into an explicit elevation-required error
/// when the process is not elevated; a failed query is passed on.
pub fn ensure_current_process_is_elevated(
    operation: &'static str,
    status: Result<ProcessElevationStatus, WindowsBackendError>,
) -> (result: Result<(), WindowsBackendError>)
    ensures
        status matches Ok(ProcessElevationStatus::Elevated) ==> result is Ok,
        status matches Ok(ProcessElevationStatus::NotElevated) ==> result == Err::<
            (),
            WindowsBackendError,
        >(WindowsBackendError::ElevationRequired { operation }),
        status is Err ==> result == Err::<(), WindowsBackendError>(status->Err_0),
{
    match status {
        Ok(ProcessElevationStatus::Elevated) => Ok(()),
        Ok(ProcessElevationStatus::NotElevated) => Err(
            WindowsBackendError::ElevationRequired { operation },
        ),
        Err(error) => Err(error),
    }
}

/// The UTF-16 code unit of a backslash.
pub const BACKSLASH: u16 = 92;

/// The UTF-16 code unit of a double quote.
pub const DOUBLE_QUOTE: u16 = 34;

/// The UTF-16 code unit of a space.
pub const SPACE: u16 = 32;

/// A code unit that forces an argument into quotes: a tab, line feed, vertical
/// tab, form feed, carriage return or space.
pub open spec fn is_separator_unit(unit: u16) -> bool {
    (9 <= unit && unit <= 13) || unit == 32
}

/// An argument needs quotes when it is empty or holds a separator or a quote.
pub open spec fn needs_quotes(argument: Seq<u16>) -> bool {
    ||| argument.len() == 0
    ||| exists|i: int| 0 <= i < argument.len() && is_separator_unit(#[trigger] argument[i])
    ||| argument.contains(DOUBLE_QUOTE)
}

/// `count` backslashes.
pub open spec fn backslashes(count: nat) -> Seq<u16> {
    Seq::new(count, |i: int| BACKSLASH)
}

/// The quoted body of the first `count` units of an argument, and the number of
/// backslashes read but not yet written: a run of backslashes is written
/// doubled and followed by an escaped quote before a quote, and as it is before
/// any other unit.
pub open spec fn quoted_prefix(argument: Seq<u16>, count: int) -> (Seq<u16>, nat)
    decreases count,
{
    if count <= 0 {
        (Seq::empty(), 0)
    } else {
        let (body, pending) = quoted_prefix(argument, count - 1);
        let unit = argument[count - 1];
        if unit == BACKSLASH {
            (body, pending + 1)
        } else if unit == DOUBLE_QUOTE {
            (body + backslashes(2 * pending + 1) + seq![DOUBLE_QUOTE], 0)
        } else {
            (body + backslashes(pending) + seq![unit], 0)
        }
    }
}

/// An argument as the Windows command-line parser reads it back: unchanged when
/// it needs no quotes, otherwise quoted with its quotes and the backslashes
/// before them escaped.
pub open spec fn encoded_argument(argument: Seq<u16>) -> Seq<u16> {
    if !needs_quotes(argument) {
        argument
    } else {
        let (body, pending) = quoted_prefix(argument, argument.len() as int);
        seq![DOUBLE_QUOTE] + body + backslashes(2 * pending) + seq![DOUBLE_QUOTE]
    }
}

/// The arguments encoded and separated by single spaces.
pub open spec fn encoded_command_line(arguments: Seq<Seq<u16>>) -> Seq<u16>
    decreases arguments.len(),
{
    if arguments.len() == 0 {
        Seq::empty()
    } else if arguments.len() == 1 {
        encoded_argument(arguments[0])
    } else {
        encoded_command_line(arguments.drop_last()) + seq![SPACE] + encoded_argument(
            arguments.last(),
        )
    }
}

/// The state of the C runtime's command-line splitter while it reads the
/// arguments that follow the program name: the arguments read so far, the one
/// being read, whether it is inside quotes, whether a quote inside quotes was
/// just read (the next unit decides whether it closes the quotes or is a `""`
/// pair standing for one quote), the backslashes read but not yet written, and
/// whether the terminating NUL unit was reached.
#[verifier::ext_equal]
pub struct SplitState {
    pub arguments: Seq<Seq<u16>>,
    pub current: Seq<u16>,
    pub in_argument: bool,
    pub in_quotes: bool,
    pub quote_pending: bool,
    pub backslashes: nat,
    pub ended: bool,
}

/// The splitter between arguments, with `arguments` read.
pub open spec fn split_between(arguments: Seq<Seq<u16>>) -> SplitState {
    SplitState {
        arguments,
        current: Seq::empty(),
        in_argument: false,
        in_quotes: false,
        quote_pending: false,
        backslashes: 0,
        ended: false,
    }
}

/// Reads one unit that is not the NUL and does not follow a pending quote:
/// backslashes are counted; a quote after an odd number of them is a literal
/// quote, and after an even number opens or (pending the next unit) closes the
/// quotes, half of the backslashes being written in both cases; a space or tab
/// outside quotes ends the argument; any other unit is written after the
/// counted backslashes.
pub open spec fn split_unit(state: SplitState, unit: u16) -> SplitState {
    if unit == BACKSLASH {
        SplitState { in_argument: true, backslashes: state.backslashes + 1, ..state }
    } else if unit == DOUBLE_QUOTE {
        let current = state.current + backslashes(state.backslashes / 2);
        if state.backslashes % 2 == 1 {
            SplitState {
                in_argument: true,
                current: current.push(DOUBLE_QUOTE),
                backslashes: 0,
                ..state
            }
        } else if state.in_quotes {
            SplitState { in_argument: true, current, backslashes: 0, quote_pending: true, ..state }
        } else {
            SplitState { in_argument: true, current, backslashes: 0, in_quotes: true, ..state }
        }
    } else if !state.in_quotes && (unit == SPACE || unit == 9) {
        if state.in_argument {
            SplitState {
                arguments: state.arguments.push(state.current + backslashes(state.backslashes)),
                current: Seq::empty(),
                in_argument: false,
                backslashes: 0,
                ..state
            }
        } else {
            state
        }
    } else {
        SplitState {
            in_argument: true,
            current: (state.current + backslashes(state.backslashes)).push(unit),
            backslashes: 0,
            ..state
        }
    }
}

/// Reads one unit of the command line. Nothing after the NUL unit is read. A
/// quote pending inside quotes followed by another quote stands for one quote
/// and the quotes stay open; followed by anything else, it closed the quotes.
pub open spec fn split_step(state: SplitState, unit: u16) -> SplitState {
    if state.ended {
        state
    } else if unit == 0 {
        SplitState { ended: true, ..state }
    } else if state.quote_pending {
        if unit == DOUBLE_QUOTE {
            SplitState { current: state.current.push(DOUBLE_QUOTE), quote_pending: false, ..state }
        } else {
            split_unit(SplitState { in_quotes: false, quote_pending: false, ..state }, unit)
        }
    } else {
        split_unit(state, unit)
    }
}

/// Reads the units of `text` in order.
pub open spec fn split_run(state: SplitState, text: Seq<u16>) -> SplitState
    decreases text.len(),
{
    if text.len() == 0 {
        state
    } else {
        split_step(split_run(state, text.drop_last()), text.last())
    }
}

/// The arguments read, the one being read, if any, included with its
/// backslashes.
pub open spec fn split_finish(state: SplitState) -> Seq<Seq<u16>> {
    if state.in_argument {
        state.arguments.push(state.current + backslashes(state.backslashes))
    } else {
        state.arguments
    }
}

/// The arguments the Microsoft C runtime reads from the part of a command line
/// that follows the program name.
pub open spec fn split_command_line(text: Seq<u16>) -> Seq<Seq<u16>> {
    split_finish(split_run(split_between(Seq::empty()), text))
}

/// The splitter has read `argument` after `arguments`, and the argument ends at
/// the next space or at the end of the command line.
pub open spec fn holds_argument(
    state: SplitState,
    arguments: Seq<Seq<u16>>,
    argument: Seq<u16>,
) -> bool {
    &&& state.arguments == arguments
    &&& state.in_argument
    &&& !state.ended
    &&& state.current + backslashes(state.backslashes) == argument
    &&& state.in_quotes == state.quote_pending
    &&& state.quote_pending ==> state.backslashes == 0
}

proof fn lemma_split_run_append(state: SplitState, first: Seq<u16>, second: Seq<u16>)
    ensures
        split_run(state, first + second) == split_run(split_run(state, first), second),
    decreases second.len(),
{
    if second.len() == 0 {
        assert(first + second =~= first);
    } else {
        assert((first + second).drop_last() =~= first + second.drop_last());
        assert((first + second).last() == second.last());
        lemma_split_run_append(state, first, second.drop_last());
    }
}

proof fn lemma_split_run_one(state: SplitState, unit: u16)
    ensures
        split_run(state, seq![unit]) == split_step(state, unit),
{
    let text = seq![unit];
    assert(text.drop_last() =~= Seq::<u16>::empty());
    assert(split_run(state, text.drop_last()) == state);
    assert(text.last() == unit);
}

proof fn lemma_split_backslashes(state: SplitState, count: nat)
    requires
        state.in_argument,
        !state.ended,
        !state.quote_pending,
    ensures
        split_run(state, backslashes(count)) == (SplitState {
            backslashes: state.backslashes + count,
            ..state
        }),
    decreases count,
{
    if count == 0 {
        assert(split_run(state, backslashes(count)) =~= SplitState {
            backslashes: state.backslashes + count,
            ..state
        });
    } else {
        assert(backslashes(count).drop_last() =~= backslashes((count - 1) as nat));
        lemma_split_backslashes(state, (count - 1) as nat);
    }
}

proof fn lemma_split_plain(arguments: Seq<Seq<u16>>, argument: Seq<u16>, count: int)
    requires
        !needs_quotes(argument),
        !argument.contains(0u16),
        0 <= count <= argument.len(),
    ensures
        split_run(split_between(arguments), argument.subrange(0, count)).arguments == arguments,
        split_run(split_between(arguments), argument.subrange(0, count)).in_argument == (count
            > 0),
        !split_run(split_between(arguments), argument.subrange(0, count)).ended,
        !split_run(split_between(arguments), argument.subrange(0, count)).in_quotes,
        !split_run(split_between(arguments), argument.subrange(0, count)).quote_pending,
        split_run(split_between(arguments), argument.subrange(0, count)).current + backslashes(
            split_run(split_between(arguments), argument.subrange(0, count)).backslashes,
        ) == argument.subrange(0, count),
    decreases count,
{
    let state = split_run(split_between(arguments), argument.subrange(0, count));
    if count == 0 {
        assert(argument.subrange(0, 0) =~= Seq::<u16>::empty());
        assert(state.current + backslashes(state.backslashes) =~= argument.subrange(0, count));
    } else {
        lemma_split_plain(arguments, argument, count - 1);
        let before = split_run(split_between(arguments), argument.subrange(0, count - 1));
        assert(argument.subrange(0, count).drop_last() =~= argument.subrange(0, count - 1));
        let unit = argument[count - 1];
        assert(argument.subrange(0, count).last() == unit);
        assert(unit != 0) by {
            if unit == 0 {
                assert(argument.contains(0u16));
            }
        }
        assert(unit != DOUBLE_QUOTE) by {
            if unit == DOUBLE_QUOTE {
                assert(argument.contains(DOUBLE_QUOTE));
            }
        }
        assert(!is_separator_unit(argument[count - 1]));
        assert(state.current + backslashes(state.backslashes) =~= (before.current + backslashes(
            before.backslashes,
        )).push(unit));
        assert(argument.subrange(0, count - 1).push(unit) =~= argument.subrange(0, count));
    }
}

/// The splitter inside an argument's quotes, with `current` written.
pub open spec fn split_quoted(arguments: Seq<Seq<u16>>, current: Seq<u16>) -> SplitState {
    SplitState {
        arguments,
        current,
        in_argument: true,
        in_quotes: true,
        quote_pending: false,
        backslashes: 0,
        ended: false,
    }
}

proof fn lemma_split_quoted_body(arguments: Seq<Seq<u16>>, argument: Seq<u16>, count: int)
    requires
        !argument.contains(0u16),
        0 <= count <= argument.len(),
    ensures
        quoted_prefix(argument, count).1 <= count,
        forall|i: int|
            count - quoted_prefix(argument, count).1 <= i < count ==> #[trigger] argument[i]
                == BACKSLASH,
        split_run(split_quoted(arguments, Seq::empty()), quoted_prefix(argument, count).0)
            == split_quoted(arguments, argument.subrange(0, count - quoted_prefix(argument, count).1)),
    decreases count,
{
    let start = split_quoted(arguments, Seq::empty());
    if count == 0 {
        assert(argument.subrange(0, 0) =~= Seq::<u16>::empty());
    } else {
        lemma_split_quoted_body(arguments, argument, count - 1);
        let (body, pending) = quoted_prefix(argument, count - 1);
        let unit = argument[count - 1];
        let written = argument.subrange(0, count - 1 - pending);
        let reached = split_quoted(arguments, written);
        assert(unit != 0) by {
            if unit == 0 {
                assert(argument.contains(0u16));
            }
        }
        assert(written + backslashes(pending) =~= argument.subrange(0, count - 1));
        if unit == DOUBLE_QUOTE {
            let escapes = backslashes(2 * pending + 1);
            lemma_split_run_append(start, body, escapes);
            lemma_split_run_append(start, body + escapes, seq![DOUBLE_QUOTE]);
            lemma_split_backslashes(reached, 2 * pending + 1);
            lemma_split_run_one(SplitState { backslashes: 2 * pending + 1, ..reached }, DOUBLE_QUOTE);
            assert((2 * pending + 1) / 2 == pending);
            assert((2 * pending + 1) % 2 == 1);
            assert((written + backslashes(pending)).push(DOUBLE_QUOTE) =~= argument.subrange(0, count));
            assert(argument.subrange(0, count) =~= argument.subrange(0, count - quoted_prefix(argument, count).1));
            assert(split_run(start, quoted_prefix(argument, count).0) =~= split_quoted(
                arguments,
                argument.subrange(0, count),
            ));
        } else if unit != BACKSLASH {
            let escapes = backslashes(pending);
            lemma_split_run_append(start, body, escapes);
            lemma_split_run_append(start, body + escapes, seq![unit]);
            lemma_split_backslashes(reached, pending);
            lemma_split_run_one(SplitState { backslashes: pending, ..reached }, unit);
            assert((written + backslashes(pending)).push(unit) =~= argument.subrange(0, count));
            assert(split_run(start, quoted_prefix(argument, count).0) =~= split_quoted(
                arguments,
                argument.subrange(0, count),
            ));
        }
    }
}

proof fn lemma_split_argument(arguments: Seq<Seq<u16>>, argument: Seq<u16>)
    requires
        !argument.contains(0u16),
    ensures
        holds_argument(
            split_run(split_between(arguments), encoded_argument(argument)),
            arguments,
            argument,
        ),
{
    if !needs_quotes(argument) {
        lemma_split_plain(arguments, argument, argument.len() as int);
        assert(argument.subrange(0, argument.len() as int) =~= argument);
        assert(argument.len() > 0);
    } else {
        let n = argument.len() as int;
        let (body, pending) = quoted_prefix(argument, n);
        lemma_split_quoted_body(arguments, argument, n);
        let open_quote = seq![DOUBLE_QUOTE];
        let start = split_between(arguments);
        lemma_split_run_one(start, DOUBLE_QUOTE);
        assert(split_run(start, open_quote) =~= split_quoted(arguments, Seq::empty()));
        lemma_split_run_append(start, open_quote, body);
        let written = argument.subrange(0, n - pending);
        let reached = split_quoted(arguments, written);
        lemma_split_run_append(start, open_quote + body, backslashes(2 * pending));
        lemma_split_backslashes(reached, 2 * pending);
        lemma_split_run_append(start, open_quote + body + backslashes(2 * pending), seq![DOUBLE_QUOTE]);
        lemma_split_run_one(SplitState { backslashes: 2 * pending, ..reached }, DOUBLE_QUOTE);
        assert((2 * pending) / 2 == pending);
        assert((2 * pending) % 2 == 0);
        assert(written + backslashes(pending) =~= argument);
        let state = split_run(start, encoded_argument(argument));
        assert(encoded_argument(argument) =~= open_quote + body + backslashes(2 * pending) + seq![
            DOUBLE_QUOTE,
        ]);
        assert(state.current + backslashes(state.backslashes) =~= argument);
    }
}

proof fn lemma_split_after_argument(state: SplitState, arguments: Seq<Seq<u16>>, argument: Seq<u16>)
    requires
        holds_argument(state, arguments, argument),
    ensures
        split_step(state, SPACE) == split_between(arguments.push(argument)),
        split_finish(state) == arguments.push(argument),
{
    assert(split_step(state, SPACE) =~= split_between(arguments.push(argument)));
}

proof fn lemma_split_line(arguments: Seq<Seq<u16>>)
    requires
        arguments.len() > 0,
        forall|i: int| 0 <= i < arguments.len() ==> !(#[trigger] arguments[i]).contains(0u16),
    ensures
        holds_argument(
            split_run(split_between(Seq::empty()), encoded_command_line(arguments)),
            arguments.drop_last(),
            arguments.last(),
        ),
    decreases arguments.len(),
{
    let start = split_between(Seq::empty());
    if arguments.len() == 1 {
        assert(arguments.drop_last() =~= Seq::<Seq<u16>>::empty());
        lemma_split_argument(Seq::empty(), arguments[0]);
    } else {
        let earlier = arguments.drop_last();
        lemma_split_line(earlier);
        let reached = split_run(start, encoded_command_line(earlier));
        lemma_split_after_argument(reached, earlier.drop_last(), earlier.last());
        assert(earlier.drop_last().push(earlier.last()) =~= earlier);
        lemma_split_run_append(start, encoded_command_line(earlier), seq![SPACE]);
        lemma_split_run_one(reached, SPACE);
        lemma_split_run_append(
            start,
            encoded_command_line(earlier) + seq![SPACE],
            encoded_argument(arguments.last()),
        );
        lemma_split_argument(earlier, arguments.last());
    }
}

/// Splitting an encoded command line by the C runtime's rules gives back the
/// arguments it was built from, for arguments that hold no NUL unit (the
/// runtime stops reading at the first one).
pub proof fn lemma_command_line_splits_back(arguments: Seq<Seq<u16>>)
    requires
        forall|i: int| 0 <= i < arguments.len() ==> !(#[trigger] arguments[i]).contains(0u16),
    ensures
        split_command_line(encoded_command_line(arguments)) == arguments,
{
    if arguments.len() > 0 {
        lemma_split_line(arguments);
        let state = split_run(split_between(Seq::empty()), encoded_command_line(arguments));
        lemma_split_after_argument(state, arguments.drop_last(), arguments.last());
        assert(arguments.drop_last().push(arguments.last()) =~= arguments);
    } else {
        assert(split_command_line(encoded_command_line(arguments)) =~= arguments);
    }
}


proof fn lemma_quoted_prefix_length(argument: Seq<u16>, count: int)
    requires
        0 <= count <= argument.len(),
    ensures
        quoted_prefix(argument, count).0.len() + 2 * quoted_prefix(argument, count).1 <= 3 * count,
    decreases count,
{
    if count > 0 {
        lemma_quoted_prefix_length(argument, count - 1);
    }
}

proof fn lemma_encoded_argument_length(argument: Seq<u16>)
    ensures
        encoded_argument(argument).len() <= 3 * argument.len() + 2,
{
    lemma_quoted_prefix_length(argument, argument.len() as int);
}

/// The total number of code units over all arguments.
pub open spec fn units_total(arguments: Seq<Seq<u16>>) -> nat
    decreases arguments.len(),
{
    if arguments.len() == 0 {
        0
    } else {
        units_total(arguments.drop_last()) + arguments.last().len()
    }
}

proof fn lemma_units_total_prefix(arguments: Seq<Seq<u16>>, count: int)
    requires
        0 <= count <= arguments.len(),
    ensures
        units_total(arguments.subrange(0, count)) <= units_total(arguments),
    decreases arguments.len() - count,
{
    if count < arguments.len() {
        lemma_units_total_prefix(arguments, count + 1);
        assert(arguments.subrange(0, count + 1).drop_last() =~= arguments.subrange(0, count));
    } else {
        assert(arguments.subrange(0, count) =~= arguments);
    }
}

fn push_backslashes(command_line: &mut Vec<u16>, count: usize)
    ensures
        final(command_line)@ == old(command_line)@ + backslashes(count as nat),
{
    let mut written: usize = 0;
    while written < count
        invariant
            written <= count,
            command_line@ == old(command_line)@ + backslashes(written as nat),
        decreases count - written,
    {
        command_line.push(BACKSLASH);
        written += 1;
        assert(command_line@ =~= old(command_line)@ + backslashes(written as nat));
    }
}

fn argument_needs_quotes(argument: &[u16]) -> (needed: bool)
    ensures
        needed == needs_quotes(argument@),
{
    if argument.len() == 0 {
        return true;
    }
    let mut index: usize = 0;
    while index < argument.len()
        invariant
            index <= argument.len(),
            forall|j: int|
                0 <= j < index ==> !is_separator_unit(#[trigger] argument@[j]) && argument@[j]
                    != DOUBLE_QUOTE,
        decreases argument.len() - index,
    {
        let unit = argument[index];
        if (9 <= unit && unit <= 13) || unit == 32 || unit == DOUBLE_QUOTE {
            proof {
                if unit == DOUBLE_QUOTE {
                    assert(argument@.contains(DOUBLE_QUOTE)) by {
                        assert(argument@[index as int] == DOUBLE_QUOTE);
                    }
                } else {
                    assert(is_separator_unit(argument@[index as int]));
                }
            }
            return true;
        }
        index += 1;
    }
    false
}

/// Appends one argument to a command line, quoted and escaped as the Windows
/// command-line parser expects.
pub fn append_windows_command_argument(command_line: &mut Vec<u16>, argument: &[u16])
    requires
        old(command_line)@.len() + 3 * argument@.len() + 2 <= usize::MAX,
    ensures
        final(command_line)@ == old(command_line)@ + encoded_argument(argument@),
        final(command_line)@.len() <= old(command_line)@.len() + 3 * argument@.len() + 2,
{
    proof {
        lemma_encoded_argument_length(argument@);
    }
    if !argument_needs_quotes(argument) {
        let mut index: usize = 0;
        while index < argument.len()
            invariant
                index <= argument.len(),
                command_line@ == old(command_line)@ + argument@.subrange(0, index as int),
            decreases argument.len() - index,
        {
            command_line.push(argument[index]);
            index += 1;
            assert(command_line@ =~= old(command_line)@ + argument@.subrange(0, index as int));
        }
        assert(argument@.subrange(0, argument.len() as int) =~= argument@);
        return;
    }
    command_line.push(DOUBLE_QUOTE);
    let ghost start = command_line@;
    let mut trailing_backslashes: usize = 0;
    let mut index: usize = 0;
    while index < argument.len()
        invariant
            index <= argument.len(),
            trailing_backslashes <= index,
            start == old(command_line)@.push(DOUBLE_QUOTE),
            old(command_line)@.len() + 3 * argument@.len() + 2 <= usize::MAX,
            quoted_prefix(argument@, index as int).1 == trailing_backslashes,
            command_line@ == start + quoted_prefix(argument@, index as int).0,
            command_line@.len() <= start.len() + 3 * index - 3 * trailing_backslashes,
        decreases argument.len() - index,
    {
        let unit = argument[index];
        if unit == BACKSLASH {
            trailing_backslashes += 1;
        } else if unit == DOUBLE_QUOTE {
            push_backslashes(command_line, trailing_backslashes * 2 + 1);
            command_line.push(DOUBLE_QUOTE);
            trailing_backslashes = 0;
        } else {
            push_backslashes(command_line, trailing_backslashes);
            command_line.push(unit);
            trailing_backslashes = 0;
        }
        index += 1;
        proof {
            let (body, pending) = quoted_prefix(argument@, index - 1);
            assert(command_line@ =~= start + quoted_prefix(argument@, index as int).0);
        }
    }
    push_backslashes(command_line, trailing_backslashes * 2);
    command_line.push(DOUBLE_QUOTE);
    assert(command_line@ =~= old(command_line)@ + encoded_argument(argument@));
}

/// Joins arguments into a single Windows command line, each encoded and
/// separated by one space.
pub fn build_windows_command_line(arguments: &[Vec<u16>]) -> (command_line: Vec<u16>)
    requires
        3 * units_total(arguments@.map_values(|argument: Vec<u16>| argument@)) + 3 * arguments@.len()
            <= usize::MAX,
    ensures
        command_line@ == encoded_command_line(arguments@.map_values(|argument: Vec<u16>| argument@)),
        (forall|i: int| 0 <= i < arguments@.len() ==> !(#[trigger] arguments@[i])@.contains(0u16))
            ==> split_command_line(command_line@) == arguments@.map_values(
            |argument: Vec<u16>| argument@,
        ),
{
    let ghost views = arguments@.map_values(|argument: Vec<u16>| argument@);
    let mut command_line: Vec<u16> = Vec::new();
    let mut index: usize = 0;
    while index < arguments.len()
        invariant
            index <= arguments.len(),
            views == arguments@.map_values(|argument: Vec<u16>| argument@),
            3 * units_total(views) + 3 * arguments@.len() <= usize::MAX,
            command_line@ == encoded_command_line(views.subrange(0, index as int)),
            command_line@.len() <= 3 * units_total(views.subrange(0, index as int)) + 3 * index,
        decreases arguments.len() - index,
    {
        let ghost prefix = views.subrange(0, index + 1);
        proof {
            assert(prefix.drop_last() =~= views.subrange(0, index as int));
            assert(prefix.last() == arguments@[index as int]@);
            lemma_units_total_prefix(views, index + 1);
        }
        if index > 0 {
            command_line.push(SPACE);
        }
        append_windows_command_argument(&mut command_line, arguments[index].as_slice());
        proof {
            assert(command_line@ =~= encoded_command_line(prefix));
        }
        index += 1;
    }
    assert(views.subrange(0, arguments.len() as int) =~= views);
    proof {
        if forall|i: int| 0 <= i < arguments@.len() ==> !(#[trigger] arguments@[i])@.contains(0u16) {
            assert forall|i: int| 0 <= i < views.len() implies !(#[trigger] views[i]).contains(
                0u16,
            ) by {
                assert(views[i] == arguments@[i]@);
            }
            lemma_command_line_splits_back(views);
        }
    }
    command_line
}

} // verus!
