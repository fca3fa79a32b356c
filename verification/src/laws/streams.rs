//! The commands that TDS 5 clients write come to the statements that they hold.
use crate::bytes::{le16, le32};
use crate::config::ConfigView;
use crate::error::ErrorView;
use crate::laws::wire::{lemma_split, lemma_utf8_round_trip, stands};
use crate::semantic::handle::handled;
use crate::server::action::Actions;
use crate::server::requests::{command_statement, command_statements, commands_text, stream_served};
use crate::session::SessionView;
use crate::strings::{joined, joined_first};
use crate::tds::packet::MessageView;
use crate::tds::tds5::command::{
    cursor_declaration, dynamic_command, language_command, procedure_call, CommandView,
};
use crate::tds::tds5::scan::{scan, Scan};
use crate::tds::tds5::stream::{authentication, start_state, StreamState};
use vstd::prelude::*;
use vstd::utf8::encode_utf8;

verus! {

// ---------------------------------------------------------------------------
// What clients write

/// A command as a client means it.
pub enum Command {
    /// Statements.
    Language { status: u8, text: Seq<char> },
    /// A call of a procedure.
    Call { name: Seq<char>, options: u16 },
    /// A statement under a name, to be prepared or executed.
    Dynamic { wide: bool, operation: u8, status: u8, id: Seq<char>, text: Seq<char> },
    /// A cursor over a statement.
    Cursor { id: Seq<char>, flags: u8, status: u8, text: Seq<char> },
}

/// The body of a command.
pub open spec fn body_of(command: Command) -> Seq<u8> {
    match command {
        Command::Language { status, text } => seq![status] + encode_utf8(text),
        Command::Call { name, options } => seq![encode_utf8(name).len() as u8] + encode_utf8(name)
            + le16(options),
        Command::Dynamic { wide, operation, status, id, text } => seq![operation, status] + seq![
            encode_utf8(id).len() as u8,
        ] + encode_utf8(id) + (if wide {
            le32(encode_utf8(text).len() as u32)
        } else {
            le16(encode_utf8(text).len() as u16)
        }) + encode_utf8(text),
        Command::Cursor { id, flags, status, text } => seq![encode_utf8(id).len() as u8]
            + encode_utf8(id) + seq![flags, status] + le16(encode_utf8(text).len() as u16)
            + encode_utf8(text) + le16(0),
    }
}

/// The byte that a command begins with.
pub open spec fn token_of(command: Command) -> u8 {
    match command {
        Command::Language { .. } => 0x21,
        Command::Call { .. } => 0xe6,
        Command::Dynamic { wide, .. } => if wide {
            0x62
        } else {
            0xe7
        },
        Command::Cursor { .. } => 0x86,
    }
}

/// Whether the length of a command takes four bytes.
pub open spec fn long_length(command: Command) -> bool {
    match command {
        Command::Language { .. } => true,
        Command::Dynamic { wide, .. } => wide,
        _ => false,
    }
}

/// A command on the wire: its token, its length and its body.
pub open spec fn written(command: Command) -> Seq<u8> {
    seq![token_of(command)] + (if long_length(command) {
        le32(body_of(command).len() as u32)
    } else {
        le16(body_of(command).len() as u16)
    }) + body_of(command)
}

/// Whether the lengths in a command can be written.
pub open spec fn writable(command: Command) -> bool {
    &&& body_of(command).len() <= (if long_length(command) {
        0xffff_ffffint
    } else {
        0xffffint
    })
    &&& match command {
        Command::Language { .. } => true,
        Command::Call { name, .. } => encode_utf8(name).len() <= 255,
        Command::Dynamic { id, .. } => encode_utf8(id).len() <= 255,
        Command::Cursor { id, .. } => encode_utf8(id).len() <= 255,
    }
}

/// The statement that a client means by a command.
pub open spec fn meant(command: Command) -> Seq<char> {
    match command {
        Command::Language { text, .. } => text,
        Command::Call { name, .. } => "EXEC "@ + name,
        Command::Dynamic { text, .. } => text,
        Command::Cursor { text, .. } => text,
    }
}

/// Commands on the wire, from the `i`th on.
pub open spec fn written_from(commands: Seq<Command>, i: int) -> Seq<u8>
    decreases commands.len() - i,
{
    if i < 0 || i >= commands.len() {
        seq![]
    } else {
        written(commands[i]) + written_from(commands, i + 1)
    }
}

/// Whether a command was read as it was meant.
pub open spec fn understood(read: CommandView, command: Command) -> bool {
    &&& read.token == token_of(command)
    &&& match command {
        Command::Language { text, .. } => read.name == "language"@ && read.text == Some(text)
            && read.identifier is None,
        Command::Call { name, .. } => read.name == "dbrpc"@ && read.identifier == Some(name)
            && read.text is None,
        Command::Dynamic { id, text, .. } => read.text == Some(text) && read.identifier == Some(id),
        Command::Cursor { id, flags, status, text } => read.text == Some(text)
            && read.identifier == Some(id) && read.status_or_options == Some(flags as u32)
            && read.secondary_status == Some(status as u32),
    }
}

// ---------------------------------------------------------------------------
// Reading bodies

/// Bytes that stand at a place are taken.
pub proof fn lemma_taken(c: Scan, part: Seq<u8>)
    requires
        c.input.len() <= usize::MAX,
        stands(c.input, c.at, part),
    ensures
        c.take(part.len() as int) == Ok::<(Seq<u8>, Scan), ErrorView>(
            (part, Scan { at: c.at + part.len(), ..c }),
        ),
{
}

/// A byte that stands at a place is taken.
pub proof fn lemma_u8(c: Scan, x: u8)
    requires
        c.input.len() <= usize::MAX,
        stands(c.input, c.at, seq![x]),
    ensures
        c.u8() == Ok::<(u8, Scan), ErrorView>((x, Scan { at: c.at + 1, ..c })),
{
    lemma_taken(c, seq![x]);
}

/// A 16-bit number that stands at a place is taken.
pub proof fn lemma_u16(c: Scan, x: u16)
    requires
        c.input.len() <= usize::MAX,
        stands(c.input, c.at, le16(x)),
    ensures
        c.u16() == Ok::<(u16, Scan), ErrorView>((x, Scan { at: c.at + 2, ..c })),
{
    lemma_taken(c, le16(x));
    crate::bytes::lemma_u16_round_trip(x);
}

/// A 32-bit number that stands at a place is taken.
pub proof fn lemma_u32(c: Scan, x: u32)
    requires
        c.input.len() <= usize::MAX,
        stands(c.input, c.at, le32(x)),
    ensures
        c.u32() == Ok::<(u32, Scan), ErrorView>((x, Scan { at: c.at + 4, ..c })),
{
    lemma_taken(c, le32(x));
    crate::bytes::lemma_u32_round_trip(x);
}

/// A text that stands at a place is taken.
pub proof fn lemma_text(c: Scan, text: Seq<char>)
    requires
        c.input.len() <= usize::MAX,
        stands(c.input, c.at, encode_utf8(text)),
    ensures
        c.text(encode_utf8(text).len() as int) == Ok::<(Seq<char>, Scan), ErrorView>(
            (text, Scan { at: c.at + encode_utf8(text).len(), ..c }),
        ),
{
    lemma_taken(c, encode_utf8(text));
    lemma_utf8_round_trip(text);
}

proof fn lemma_language(status: u8, text: Seq<char>)
    ensures
        ({
            let command = Command::Language { status, text };
            let read = language_command(body_of(command));
            read is Ok && understood(read->Ok_0, command)
        }),
{
    let body = seq![status] + encode_utf8(text);
    assert(body.subrange(1, body.len() as int) =~= encode_utf8(text));
    lemma_utf8_round_trip(text);
}

proof fn lemma_call(name: Seq<char>, options: u16)
    requires
        writable(Command::Call { name, options }),
        body_of(Command::Call { name, options }).len() <= usize::MAX,
    ensures
        ({
            let command = Command::Call { name, options };
            let read = procedure_call(0xe6, body_of(command));
            read is Ok && understood(read->Ok_0, command)
        }),
{
    let raw = encode_utf8(name);
    let body = body_of(Command::Call { name, options });
    let c = scan(body);
    assert(body.subrange(0, body.len() as int) =~= body);
    lemma_split(body, 0, seq![raw.len() as u8] + raw, le16(options));
    lemma_split(body, 0, seq![raw.len() as u8], raw);
    lemma_u8(c, raw.len() as u8);
    let c1 = Scan { at: 1, ..c };
    lemma_text(c1, name);
    lemma_taken(Scan { at: 1 + raw.len() as int, ..c }, le16(options));
}

proof fn lemma_dynamic(command: Command)
    requires
        command is Dynamic,
        writable(command),
        body_of(command).len() <= usize::MAX,
    ensures
        ({
            let read = dynamic_command(token_of(command), body_of(command));
            read is Ok && understood(read->Ok_0, command)
        }),
{
    if let Command::Dynamic { wide, operation, status, id, text } = command {
        let body = body_of(command);
        let c = scan(body);
        let name = encode_utf8(id);
        let raw = encode_utf8(text);
        let length = if wide {
            le32(raw.len() as u32)
        } else {
            le16(raw.len() as u16)
        };
        let head = seq![operation, status];
        let count = seq![name.len() as u8];
        assert(body.subrange(0, body.len() as int) =~= body);
        lemma_split(body, 0, head + count + name + length, raw);
        lemma_split(body, 0, head + count + name, length);
        lemma_split(body, 0, head + count, name);
        lemma_split(body, 0, head, count);
        assert(head =~= seq![operation] + seq![status]);
        lemma_split(body, 0, seq![operation], seq![status]);
        lemma_u8(c, operation);
        lemma_u8(Scan { at: 1, ..c }, status);
        lemma_u8(Scan { at: 2, ..c }, name.len() as u8);
        lemma_text(Scan { at: 3, ..c }, id);
        let d = Scan { at: 3 + name.len() as int, ..c };
        if wide {
            lemma_u32(d, raw.len() as u32);
            lemma_text(Scan { at: d.at + 4, ..c }, text);
        } else {
            lemma_u16(d, raw.len() as u16);
            lemma_text(Scan { at: d.at + 2, ..c }, text);
        }
    }
}

proof fn lemma_cursor(command: Command)
    requires
        command is Cursor,
        writable(command),
        body_of(command).len() <= usize::MAX,
    ensures
        ({
            let read = cursor_declaration(0x86, body_of(command), false);
            read is Ok && understood(read->Ok_0, command)
        }),
{
    if let Command::Cursor { id, flags, status, text } = command {
        let body = body_of(command);
        let c = scan(body);
        let name = encode_utf8(id);
        let raw = encode_utf8(text);
        let count = seq![name.len() as u8];
        let both = seq![flags, status];
        let length = le16(raw.len() as u16);
        assert(body.subrange(0, body.len() as int) =~= body);
        lemma_split(body, 0, count + name + both + length + raw, le16(0));
        lemma_split(body, 0, count + name + both + length, raw);
        lemma_split(body, 0, count + name + both, length);
        lemma_split(body, 0, count + name, both);
        lemma_split(body, 0, count, name);
        let p = 1 + name.len() as int;
        assert(both =~= seq![flags] + seq![status]);
        lemma_split(body, p, seq![flags], seq![status]);
        lemma_u8(c, name.len() as u8);
        lemma_text(Scan { at: 1, ..c }, id);
        lemma_u8(Scan { at: p, ..c }, flags);
        lemma_u8(Scan { at: p + 1, ..c }, status);
        lemma_u16(Scan { at: p + 2, ..c }, raw.len() as u16);
        lemma_text(Scan { at: p + 4, ..c }, text);
        lemma_u16(Scan { at: p + 4 + raw.len(), ..c }, 0);
    }
}

// ---------------------------------------------------------------------------
// Reading streams

#[verifier::spinoff_prover]
proof fn lemma_step(state: StreamState, c: Scan, command: Command, max: int)
    requires
        c.input.len() <= usize::MAX,
        writable(command),
        stands(c.input, c.at, written(command)),
    ensures
        ({
            let token = token_of(command);
            let body = Scan { at: c.at + 1, ..c };
            let step = state.step(token, body, max);
            let (next, after) = step->Ok_0;
            &&& c.u8() == Ok::<(u8, Scan), ErrorView>((token, body))
            &&& step is Ok
            &&& after == Scan { at: c.at + written(command).len(), ..c }
            &&& next.out.commands.len() == state.out.commands.len() + 1
            &&& next.out.commands.drop_last() == state.out.commands
            &&& understood(next.out.commands.last(), command)
            &&& next.out.count() == state.out.count() + 1
            &&& next.out.unknown_token == state.out.unknown_token
            &&& next.out.trailing_bytes == state.out.trailing_bytes
        }),
{
    let token = token_of(command);
    let raw = body_of(command);
    let length = if long_length(command) {
        le32(raw.len() as u32)
    } else {
        le16(raw.len() as u16)
    };
    lemma_split(c.input, c.at, seq![token] + length, raw);
    lemma_split(c.input, c.at, seq![token], length);
    lemma_u8(c, token);
    let body = Scan { at: c.at + 1, ..c };
    let p = Scan { at: c.at + 1 + length.len(), ..c };
    if long_length(command) {
        lemma_u32(body, raw.len() as u32);
    } else {
        lemma_u16(body, raw.len() as u16);
    }
    lemma_taken(p, raw);
    let after = Scan { at: c.at + written(command).len(), ..c };
    assert(body.body(long_length(command)) == Ok::<(Seq<u8>, Scan), ErrorView>((raw, after)));
    assert(raw.len() <= usize::MAX);
    reveal(StreamState::step);
    match command {
        Command::Language { status, text } => {
            lemma_language(status, text);
        },
        Command::Call { name, options } => {
            lemma_call(name, options);
        },
        Command::Dynamic { .. } => {
            lemma_dynamic(command);
        },
        Command::Cursor { .. } => {
            lemma_cursor(command);
        },
    }
    let next = state.step(token, body, max)->Ok_0.0;
    let read = next.out.commands.last();
    assert(next.out.commands == state.out.commands.push(read));
    assert(state.out.commands.push(read).drop_last() =~= state.out.commands);
}

/// Whether the commands behind the first ones of a list were read as they were meant.
spec fn all_understood(read: Seq<CommandView>, from: int, commands: Seq<Command>, i: int) -> bool {
    &&& read.len() == from + commands.len() - i
    &&& forall|j: int|
        i <= j < commands.len() ==> #[trigger] understood(read[from + j - i], commands[j])
}

#[verifier::spinoff_prover]
proof fn lemma_run(state: StreamState, c: Scan, commands: Seq<Command>, i: int, max: int)
    requires
        c.input.len() <= usize::MAX,
        0 <= i <= commands.len(),
        forall|j: int| 0 <= j < commands.len() ==> writable(#[trigger] commands[j]),
        stands(c.input, c.at, written_from(commands, i)),
        c.at + written_from(commands, i).len() == c.input.len(),
        state.out.count() + commands.len() - i <= 4096,
    ensures
        ({
            let result = state.run(c, max);
            let out = result->Ok_0;
            &&& result is Ok
            &&& all_understood(
                out.commands,
                state.out.commands.len() as int,
                commands,
                i,
            )
            &&& out.commands.take(state.out.commands.len() as int) == state.out.commands
            &&& out.unknown_token == state.out.unknown_token
            &&& out.trailing_bytes == state.out.trailing_bytes
        }),
    decreases commands.len() - i,
{
    let n = state.out.commands.len() as int;
    if i == commands.len() {
        assert(state.out.commands.take(n) =~= state.out.commands);
    } else {
        let command = commands[i];
        lemma_split(c.input, c.at, written(command), written_from(commands, i + 1));
        lemma_step(state, c, command, max);
        let body = Scan { at: c.at + 1, ..c };
        let (next, after) = state.step(token_of(command), body, max)->Ok_0;
        assert(crate::tds::tds5::names::published_token(token_of(command)));
        assert(written(command).len() > 0);
        lemma_run(next, after, commands, i + 1, max);
        let out = state.run(c, max)->Ok_0;
        assert(out == next.run(after, max)->Ok_0);
        assert(out.commands.take(n + 1) == next.out.commands);
        assert(out.commands.take(n) =~= out.commands.take(n + 1).drop_last());
        assert(out.commands[n] == next.out.commands.last()) by {
            assert(out.commands.take(n + 1)[n] == out.commands[n]);
        }
        assert forall|j: int| i <= j < commands.len() implies #[trigger] understood(
            out.commands[n + j - i],
            commands[j],
        ) by {
            if j > i {
                assert(understood(out.commands[n + 1 + j - (i + 1)], commands[j]));
            }
        }
    }
}

/// Commands that a client writes are read in their order, each as it was meant.
pub proof fn lemma_commands_are_read(commands: Seq<Command>, max: int)
    requires
        commands.len() <= 4096,
        forall|j: int| 0 <= j < commands.len() ==> writable(#[trigger] commands[j]),
        written_from(commands, 0).len() <= usize::MAX,
    ensures
        ({
            let result = authentication(written_from(commands, 0), max);
            let stream = result->Ok_0;
            &&& result is Ok
            &&& stream.commands.len() == commands.len()
            &&& forall|j: int|
                0 <= j < commands.len() ==> #[trigger] understood(stream.commands[j], commands[j])
            &&& stream.unknown_token is None
            &&& stream.trailing_bytes == 0
        }),
{
    let b = written_from(commands, 0);
    assert(b.subrange(0, b.len() as int) =~= b);
    lemma_run(start_state(), scan(b), commands, 0, max);
    let stream = authentication(b, max)->Ok_0;
    assert forall|j: int| 0 <= j < commands.len() implies #[trigger] understood(
        stream.commands[j],
        commands[j],
    ) by {
        assert(understood(stream.commands[0 + j - 0], commands[j]));
    }
}

// ---------------------------------------------------------------------------
// Statements

/// Every command that has a text contributes it, whatever the command is called, and a call
/// of a procedure contributes that it is executed. Nothing else contributes.
pub proof fn lemma_commands_contribute(commands: Seq<CommandView>, last: CommandView)
    ensures
        commands_text(seq![]).len() == 0,
        last.text matches Some(text) ==> commands_text(seq![last]) == text,
        last.text is None && last.name == "dbrpc"@ && last.identifier is Some ==> commands_text(
            seq![last],
        ) == "EXEC "@ + last.identifier->0,
        last.text is None && (last.identifier is None || last.name != "dbrpc"@) ==> commands_text(
            commands.push(last),
        ) == commands_text(commands),
        commands.len() > 0 && commands[0].text is Some ==> {
            &&& last.text matches Some(text) ==> commands_text(commands.push(last))
                == commands_text(commands) + "; "@ + text
            &&& last.text is None && last.name == "dbrpc"@ && last.identifier is Some
                ==> commands_text(commands.push(last)) == commands_text(commands) + "; EXEC "@
                + last.identifier->0
        },
{
    let one = seq![last];
    assert(command_statements(one, 0) =~= seq![]);
    assert(one[0] == last);
    reveal_with_fuel(command_statements, 2);
    let more = commands.push(last);
    let n = commands.len();
    lemma_statements_same(commands, more, n);
    assert(more[n as int] == last);
    if commands.len() > 0 && commands[0].text is Some {
        lemma_statements_grow(commands, n);
        let before = command_statements(commands, n);
        if command_statement(last) is Some {
            let text = command_statement(last)->0;
            let after = before.push(text);
            assert(command_statements(more, n + 1) == after);
            lemma_joined_push(before, text);
            reveal_strlit("; ");
            reveal_strlit("; EXEC ");
            reveal_strlit("EXEC ");
            if last.text is None {
                let name = last.identifier->0;
                assert(commands_text(commands) + "; "@ + ("EXEC "@ + name) =~= commands_text(
                    commands,
                ) + "; EXEC "@ + name);
            }
        }
    }
}

proof fn lemma_statements_same(a: Seq<CommandView>, b: Seq<CommandView>, n: nat)
    requires
        n <= a.len() <= b.len(),
        forall|i: int| 0 <= i < n ==> a[i] == b[i],
    ensures
        command_statements(a, n) == command_statements(b, n),
    decreases n,
{
    if n > 0 {
        lemma_statements_same(a, b, (n - 1) as nat);
    }
}

proof fn lemma_statements_grow(commands: Seq<CommandView>, n: nat)
    requires
        0 < n <= commands.len(),
        commands[0].text is Some,
    ensures
        command_statements(commands, n).len() > 0,
    decreases n,
{
    if n > 1 {
        lemma_statements_grow(commands, (n - 1) as nat);
    } else {
        reveal_with_fuel(command_statements, 2);
    }
}

proof fn lemma_joined_same(a: Seq<Seq<char>>, b: Seq<Seq<char>>, separator: Seq<char>, n: nat)
    requires
        n <= a.len(),
        n <= b.len(),
        forall|i: int| 0 <= i < n ==> a[i] == b[i],
    ensures
        joined_first(a, separator, n) == joined_first(b, separator, n),
    decreases n,
{
    if n > 1 {
        lemma_joined_same(a, b, separator, (n - 1) as nat);
    }
}

proof fn lemma_joined_push(texts: Seq<Seq<char>>, text: Seq<char>)
    requires
        texts.len() > 0,
    ensures
        joined(texts.push(text), "; "@) == joined(texts, "; "@) + "; "@ + text,
{
    lemma_joined_same(texts.push(text), texts, "; "@, texts.len());
}

/// The statements that a client means by its commands, one behind the other.
pub open spec fn statements_meant(commands: Seq<Command>) -> Seq<char>
    decreases commands.len(),
{
    if commands.len() == 0 {
        seq![]
    } else if commands.len() == 1 {
        meant(commands[0])
    } else {
        statements_meant(commands.drop_last()) + "; "@ + meant(commands.last())
    }
}

proof fn lemma_statements_read(read: Seq<CommandView>, commands: Seq<Command>)
    requires
        read.len() == commands.len(),
        forall|j: int| 0 <= j < commands.len() ==> #[trigger] understood(read[j], commands[j]),
    ensures
        commands_text(read) == statements_meant(commands),
        command_statements(read, read.len()).len() == commands.len(),
    decreases commands.len(),
{
    let n = commands.len();
    if n > 0 {
        let before = read.drop_last();
        let fewer = commands.drop_last();
        assert forall|j: int| 0 <= j < fewer.len() implies #[trigger] understood(
            before[j],
            fewer[j],
        ) by {
            assert(understood(read[j], commands[j]));
        }
        lemma_statements_read(before, fewer);
        lemma_statements_same(before, read, (n - 1) as nat);
        assert(understood(read[n - 1], commands[n - 1]));
        assert(command_statement(read[n - 1]) == Some(meant(commands[n - 1])));
        let texts = command_statements(before, (n - 1) as nat);
        assert(command_statements(read, n) == texts.push(meant(commands[n - 1])));
        if n > 1 {
            lemma_joined_push(texts, meant(commands[n - 1]));
        }
    }
}

/// A message with the commands of a TDS 5 client does to the session what a batch of the
/// statements in them does, and is answered with the outcome of that batch.
#[verifier::spinoff_prover]
pub proof fn lemma_streams_are_batches(
    actions: Actions,
    session: SessionView,
    config: ConfigView,
    transport: Seq<char>,
    message: MessageView,
    commands: Seq<Command>,
)
    requires
        commands.len() <= 4096,
        forall|j: int| 0 <= j < commands.len() ==> writable(#[trigger] commands[j]),
        message.payload == written_from(commands, 0),
        message.payload.len() <= usize::MAX,
        statements_meant(commands).len() > 0,
    ensures
        ({
            let (_, after, result) = stream_served(actions, session, config, transport, message);
            let (moved, outcome) = handled(
                session,
                config.personality,
                statements_meant(commands),
            );
            after == moved && result == Ok::<
                (crate::semantic::outcome::OutcomeView, bool),
                ErrorView,
            >((outcome, false))
        }),
{
    let max = config.limits.max_payload_bytes as int;
    lemma_commands_are_read(commands, max);
    let stream = authentication(message.payload, max)->Ok_0;
    lemma_statements_read(stream.commands, commands);
}

} // verus!
