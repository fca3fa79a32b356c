//! Reading a TDS 5 token stream so that unfamiliar or malformed regions do not hide an
//! authentication exchange that is framed by itself.
use crate::bytes::{read_u16, u16_at};
use crate::tds::tds5::laws::{
    lemma_reading_skips_nothing, lemma_total_joins, lemma_unknown_tokens_are_placed,
    lemma_values_are_bounded,
};
use crate::tds::tds5::names::is_published_message_type;
use crate::tds::tds5::stream::{
    authentication, empty_stream, parse_authentication, AuthenticationStream, StreamView,
    Tds5Message, Tds5UnparsedRegion,
};
use crate::text::{
    cat3, dec, decimal, lemma_views_append, lemma_views_empty, lemma_views_push, views,
};
use vstd::prelude::*;

verus! {

broadcast use {lemma_views_push, lemma_views_empty, lemma_views_append};

/// The byte at `i`, if there is one.
pub open spec fn byte_at(input: Seq<u8>, i: int) -> Option<u8> {
    if 0 <= i < input.len() {
        Some(input[i])
    } else {
        None
    }
}

/// Whether a complete message token of a published type stands at the start, behind the
/// token itself.
pub open spec fn message_prefix(input: Seq<u8>) -> bool {
    &&& input.len() >= 2
    &&& input[1] >= 3
    &&& input.len() - 2 >= input[1]
    &&& 1 <= u16_at(input, 3) <= 35
}

/// The sum of lengths.
pub open spec fn total(list: Seq<usize>) -> nat
    decreases list.len(),
{
    if list.len() == 0 {
        0
    } else {
        total(list.drop_last()) + list.last() as nat
    }
}

/// The stream that stands for input that cannot be read at all.
pub open spec fn unread_stream(input: Seq<u8>) -> StreamView {
    StreamView {
        unknown_token: byte_at(input, 0),
        trailing_bytes: if input.len() == 0 {
            0
        } else {
            (input.len() - 1) as usize
        },
        unparsed_regions: if input.len() == 0 {
            seq![]
        } else {
            seq![
                Tds5UnparsedRegion {
                    offset: 0,
                    bytes: input.len() as usize,
                    first_byte: Some(input[0]),
                },
            ]
        },
        ..empty_stream()
    }
}

impl StreamView {
    /// The bytes of all values.
    pub open spec fn value_bytes(self) -> nat {
        total(self.parameter_value_bytes) + total(self.row_value_bytes)
    }

    /// Where the part that was read ends: the unknown token and what is behind it were not
    /// read.
    pub open spec fn parsed_end(self, input: Seq<u8>) -> int {
        if input.len() > self.trailing_bytes + 1 {
            input.len() - (self.trailing_bytes + 1)
        } else {
            0
        }
    }

    /// Whether a message of a published type was read.
    pub open spec fn has_published_message(self) -> bool {
        exists|i: int|
            0 <= i < self.message_types.len() && 1 <= (
            #[trigger] self.message_types[i]).message_type <= 35
    }

    /// Whether what was read from the middle of the input is an authentication exchange: to
    /// its end, or with a complete parameter set before an unknown token.
    pub open spec fn recoverable(self) -> bool {
        &&& self.has_published_message()
        &&& {
            ||| self.unknown_token is None && self.trailing_bytes == 0
            ||| self.unknown_token is Some && self.parameter_sets > 0
                && self.raw_parameter_values.len() > 0
        }
    }

    /// The stream with the report of `prefix` before its own.
    #[verifier::opaque]
    pub open spec fn behind(self, prefix: StreamView) -> StreamView {
        StreamView {
            commands: prefix.commands + self.commands,
            tokens: prefix.tokens + self.tokens,
            message_types: prefix.message_types + self.message_types,
            parameter_formats: prefix.parameter_formats + self.parameter_formats,
            parameter_sets: prefix.parameter_sets + self.parameter_sets,
            parameter_value_bytes: prefix.parameter_value_bytes + self.parameter_value_bytes,
            parameter_values: prefix.parameter_values + self.parameter_values,
            row_formats: prefix.row_formats + self.row_formats,
            rows: prefix.rows + self.rows,
            alternate_formats: prefix.alternate_formats + self.alternate_formats,
            alternate_rows: prefix.alternate_rows + self.alternate_rows,
            row_value_bytes: prefix.row_value_bytes + self.row_value_bytes,
            row_values: prefix.row_values + self.row_values,
            encrypted_login_password: if prefix.encrypted_login_password is Some {
                prefix.encrypted_login_password
            } else {
                self.encrypted_login_password
            },
            encrypted_login_password_bytes: if prefix.encrypted_login_password is Some {
                prefix.encrypted_login_password_bytes
            } else {
                self.encrypted_login_password_bytes
            },
            encrypted_remote_passwords: prefix.encrypted_remote_passwords
                + self.encrypted_remote_passwords,
            encrypted_symmetric_key: if prefix.encrypted_symmetric_key is Some {
                prefix.encrypted_symmetric_key
            } else {
                self.encrypted_symmetric_key
            },
            encrypted_symmetric_key_bytes: if prefix.encrypted_symmetric_key is Some {
                prefix.encrypted_symmetric_key_bytes
            } else {
                self.encrypted_symmetric_key_bytes
            },
            opaque_security: prefix.opaque_security + self.opaque_security,
            parse_warnings: prefix.parse_warnings + self.parse_warnings,
            raw_parameter_values: prefix.raw_parameter_values + self.raw_parameter_values,
            ..self
        }
    }

    /// The region behind what was read from the middle of the input.
    pub open spec fn trailing_region(self, input: Seq<u8>) -> Seq<Tds5UnparsedRegion> {
        match self.unknown_token {
            None => seq![],
            Some(token) => {
                let bytes = if self.trailing_bytes == usize::MAX {
                    usize::MAX
                } else {
                    (self.trailing_bytes + 1) as usize
                };
                seq![
                    Tds5UnparsedRegion {
                        offset: if input.len() > bytes {
                            (input.len() - bytes) as usize
                        } else {
                            0
                        },
                        bytes,
                        first_byte: Some(token),
                    },
                ]
            },
        }
    }

    /// The stream with a gap in the input, what is behind it, and two warnings.
    pub open spec fn with_gap(
        self,
        input: Seq<u8>,
        gap: int,
        offset: int,
        trailing: Seq<Tds5UnparsedRegion>,
        error: Seq<char>,
    ) -> StreamView {
        StreamView {
            unparsed_regions: self.unparsed_regions.push(
                Tds5UnparsedRegion {
                    offset: gap as usize,
                    bytes: (offset - gap) as usize,
                    first_byte: byte_at(input, gap),
                },
            ) + trailing,
            parse_warnings: self.parse_warnings.push(error).push(
                "recovered TDS 5 authentication suffix after "@ + dec(offset as nat)
                    + " unparsed bytes"@,
            ),
            ..self
        }
    }

    /// The exchange that was read from `offset` on, joined with what was read before it
    /// where that leaves off earlier and all values together are within the limit.
    pub open spec fn joined(
        self,
        input: Seq<u8>,
        max: int,
        offset: int,
        prefix: StreamView,
        error: Seq<char>,
    ) -> StreamView {
        let end = prefix.parsed_end(input);
        let trailing = self.trailing_region(input);
        if prefix.tokens.len() > 0 && end <= offset && prefix.value_bytes() + self.value_bytes()
            <= max {
            self.behind(prefix).with_gap(input, end, offset, trailing, error)
        } else {
            self.with_gap(input, 0, offset, trailing, error)
        }
    }

    /// The stream where nothing more could be recovered.
    pub open spec fn given_up(self, input: Seq<u8>, error: Seq<char>) -> StreamView {
        StreamView {
            unparsed_regions: if self.unparsed_regions.len() == 0 && input.len() > 0 {
                let offset = self.parsed_end(input);
                self.unparsed_regions.push(
                    Tds5UnparsedRegion {
                        offset: offset as usize,
                        bytes: (input.len() - offset) as usize,
                        first_byte: byte_at(input, offset),
                    },
                )
            } else {
                self.unparsed_regions
            },
            parse_warnings: self.parse_warnings.push(error),
            ..self
        }
    }
}

/// The exchange that can be read from `offset`, if one can.
pub open spec fn recovered_at(input: Seq<u8>, max: int, offset: int) -> Option<StreamView> {
    let rest = input.subrange(offset, input.len() as int);
    if input[offset] == 0x65 && message_prefix(rest) {
        match authentication(rest, max) {
            Ok(stream) => if stream.recoverable() {
                Some(stream)
            } else {
                None
            },
            Err(_) => None,
        }
    } else {
        None
    }
}

/// The first exchange that can be read from `offset` or behind it, joined with `prefix`.
pub open spec fn recovery(
    input: Seq<u8>,
    max: int,
    offset: int,
    prefix: StreamView,
    error: Seq<char>,
) -> StreamView
    decreases input.len() - offset,
{
    if offset >= input.len() {
        prefix.given_up(input, error)
    } else {
        match recovered_at(input, max, offset) {
            Some(stream) => stream.joined(input, max, offset, prefix, error),
            None => recovery(input, max, offset + 1, prefix, error),
        }
    }
}

/// The report of a token stream that may hold unfamiliar or malformed regions.
pub open spec fn telemetry(input: Seq<u8>, max: int) -> StreamView {
    match authentication(input, max) {
        Ok(stream) => if stream.unknown_token is None {
            stream
        } else {
            recovery(input, max, 1, stream, "unrecognized TDS 5 token"@)
        },
        Err(e) => recovery(input, max, 1, unread_stream(input), e.message()),
    }
}

// ---------------------------------------------------------------------------

fn is_authentication_msg_prefix(input: &[u8]) -> (yes: bool)
    ensures
        yes == message_prefix(input@),
{
    if input.len() < 2 {
        return false;
    }
    let length: usize = input[1] as usize;
    if length < 3 || input.len() - 2 < length {
        return false;
    }
    is_published_message_type(read_u16(input, 3))
}

fn prepend<T>(target: &mut Vec<T>, prefix: Vec<T>)
    ensures
        final(target)@ == prefix@ + old(target)@,
{
    let mut whole = prefix;
    whole.append(target);
    *target = whole;
}

fn prepend_authentication_prefix(target: &mut AuthenticationStream, prefix: AuthenticationStream)
    requires
        old(target)@.count() <= 4096,
        prefix@.count() <= 4096,
    ensures
        final(target)@ == old(target)@.behind(prefix@),
{
    reveal(StreamView::behind);
    prepend(&mut target.commands, prefix.commands);
    prepend(&mut target.tokens, prefix.tokens);
    prepend(&mut target.message_types, prefix.message_types);
    prepend(&mut target.parameter_value_bytes, prefix.parameter_value_bytes);
    prepend(&mut target.parameter_values, prefix.parameter_values);
    prepend(&mut target.row_value_bytes, prefix.row_value_bytes);
    prepend(&mut target.row_values, prefix.row_values);
    prepend(&mut target.alternate_formats, prefix.alternate_formats);
    prepend(&mut target.encrypted_remote_passwords, prefix.encrypted_remote_passwords);
    prepend(&mut target.opaque_security, prefix.opaque_security);
    prepend(&mut target.raw_parameter_values, prefix.raw_parameter_values);
    target.parameter_formats = target.parameter_formats + prefix.parameter_formats;
    target.parameter_sets = target.parameter_sets + prefix.parameter_sets;
    target.row_formats = target.row_formats + prefix.row_formats;
    target.rows = target.rows + prefix.rows;
    target.alternate_rows = target.alternate_rows + prefix.alternate_rows;
    if prefix.encrypted_login_password.is_some() {
        target.encrypted_login_password_bytes = prefix.encrypted_login_password_bytes;
        target.encrypted_login_password = prefix.encrypted_login_password;
    }
    if prefix.encrypted_symmetric_key.is_some() {
        target.encrypted_symmetric_key_bytes = prefix.encrypted_symmetric_key_bytes;
        target.encrypted_symmetric_key = prefix.encrypted_symmetric_key;
    }
    prepend(&mut target.parse_warnings, prefix.parse_warnings);
}

proof fn lemma_total_take(list: Seq<usize>, i: int)
    requires
        0 <= i <= list.len(),
    ensures
        total(list.take(i)) <= total(list),
    decreases list.len() - i,
{
    if i < list.len() {
        lemma_total_take(list, i + 1);
        assert(list.take(i + 1).drop_last() =~= list.take(i));
    } else {
        assert(list.take(i) =~= list);
    }
}

/// `start` and the sum of lengths, where that is at most `max`.
fn sum_within(start: usize, list: &Vec<usize>, max: usize) -> (sum: Option<usize>)
    requires
        start <= max,
    ensures
        match sum {
            Some(n) => n == start + total(list@) && n <= max,
            None => start + total(list@) > max,
        },
{
    let mut sum: usize = start;
    let mut i: usize = 0;
    while i < list.len()
        invariant
            i <= list@.len(),
            sum == start + total(list@.take(i as int)),
            sum <= max,
        decreases list.len() - i,
    {
        assert(list@.take(i + 1).drop_last() =~= list@.take(i as int));
        if list[i] > max - sum {
            proof {
                lemma_total_take(list@, i + 1);
            }
            return None;
        }
        sum = sum + list[i];
        i += 1;
    }
    assert(list@.take(i as int) =~= list@);
    Some(sum)
}

fn values_fit(a: &AuthenticationStream, b: &AuthenticationStream, max: usize) -> (fit: bool)
    ensures
        fit == (a@.value_bytes() + b@.value_bytes() <= max),
{
    match sum_within(0, &a.parameter_value_bytes, max) {
        None => false,
        Some(n) => match sum_within(n, &a.row_value_bytes, max) {
            None => false,
            Some(n) => match sum_within(n, &b.parameter_value_bytes, max) {
                None => false,
                Some(n) => match sum_within(n, &b.row_value_bytes, max) {
                    None => false,
                    Some(_) => true,
                },
            },
        },
    }
}

fn has_published_message(messages: &Vec<Tds5Message>) -> (yes: bool)
    ensures
        yes == (exists|i: int|
            0 <= i < messages@.len() && 1 <= (#[trigger] views(messages@)[i]).message_type <= 35),
{
    let mut i: usize = 0;
    while i < messages.len()
        invariant
            i <= messages@.len(),
            forall|j: int|
                0 <= j < i ==> !(1 <= (#[trigger] views(messages@)[j]).message_type <= 35),
        decreases messages.len() - i,
    {
        if is_published_message_type(messages[i].message_type) {
            assert(views(messages@)[i as int].message_type == messages@[i as int].message_type);
            return true;
        }
        i += 1;
    }
    false
}

fn first_byte(input: &[u8], i: usize) -> (byte: Option<u8>)
    ensures
        byte == byte_at(input@, i as int),
{
    if i < input.len() {
        Some(input[i])
    } else {
        None
    }
}

fn parsed_end(stream: &AuthenticationStream, input: &[u8]) -> (end: usize)
    ensures
        end == stream@.parsed_end(input@),
        end <= input.len(),
{
    if stream.trailing_bytes < input.len() && input.len() - stream.trailing_bytes > 1 {
        input.len() - stream.trailing_bytes - 1
    } else {
        0
    }
}

fn recover_at(input: &[u8], max: usize, offset: usize) -> (recovered: Option<AuthenticationStream>)
    requires
        offset < input.len(),
    ensures
        crate::text::opt_view(recovered) == recovered_at(input@, max as int, offset as int),
        recovered matches Some(stream) ==> stream@.count() <= 4096,
{
    let rest = &input[offset..input.len()];
    if input[offset] != 0x65 || !is_authentication_msg_prefix(rest) {
        return None;
    }
    let stream = match parse_authentication(rest, max) {
        Ok(stream) => stream,
        Err(_) => {
            return None;
        },
    };
    if !has_published_message(&stream.message_types) {
        return None;
    }
    let complete = stream.unknown_token.is_none() && stream.trailing_bytes == 0;
    let before_unknown = stream.unknown_token.is_some() && stream.parameter_sets > 0
        && stream.raw_parameter_values.len() > 0;
    if complete || before_unknown {
        Some(stream)
    } else {
        None
    }
}

fn trailing_region(stream: &AuthenticationStream, input: &[u8]) -> (region: Vec<
    Tds5UnparsedRegion,
>)
    ensures
        region@ == stream@.trailing_region(input@),
{
    let mut regions: Vec<Tds5UnparsedRegion> = Vec::new();
    if let Some(token) = stream.unknown_token {
        let bytes: usize = stream.trailing_bytes.saturating_add(1);
        regions.push(
            Tds5UnparsedRegion {
                offset: input.len().saturating_sub(bytes),
                bytes,
                first_byte: Some(token),
            },
        );
    }
    assert(regions@ =~= stream@.trailing_region(input@));
    regions
}

fn join(
    recovered: AuthenticationStream,
    input: &[u8],
    max: usize,
    offset: usize,
    prefix: AuthenticationStream,
    error: String,
) -> (stream: AuthenticationStream)
    requires
        recovered@.count() <= 4096,
        prefix@.count() <= 4096,
    ensures
        stream@ == recovered@.joined(input@, max as int, offset as int, prefix@, error@),
{
    let mut stream = recovered;
    let mut trailing = trailing_region(&stream, input);
    let end: usize = parsed_end(&prefix, input);
    let mut gap: usize = 0;
    if prefix.tokens.len() > 0 && end <= offset && values_fit(&prefix, &stream, max) {
        prepend_authentication_prefix(&mut stream, prefix);
        gap = end;
    }
    stream.unparsed_regions.push(
        Tds5UnparsedRegion { offset: gap, bytes: offset - gap, first_byte: first_byte(input, gap) },
    );
    stream.unparsed_regions.append(&mut trailing);
    stream.parse_warnings.push(error);
    stream.parse_warnings.push(
        cat3(
            "recovered TDS 5 authentication suffix after ",
            decimal(offset as u128).as_str(),
            " unparsed bytes",
        ),
    );
    stream
}

fn unread(input: &[u8]) -> (stream: AuthenticationStream)
    ensures
        stream@ == unread_stream(input@),
{
    let mut stream = AuthenticationStream::empty();
    stream.unknown_token = first_byte(input, 0);
    stream.trailing_bytes = input.len().saturating_sub(1);
    if input.len() > 0 {
        stream.unparsed_regions.push(
            Tds5UnparsedRegion { offset: 0, bytes: input.len(), first_byte: Some(input[0]) },
        );
    }
    assert(stream@.unparsed_regions =~= unread_stream(input@).unparsed_regions);
    stream
}

/// The report of a token stream. Where it cannot be read to its end, the first exchange
/// behind the start that is framed by itself is reported, with the regions that were not
/// read; requiring a complete message and complete parameters keeps random bytes from
/// being taken for credentials.
pub fn parse_for_telemetry(input: &[u8], max_value_bytes: usize) -> (stream: AuthenticationStream)
    ensures
        stream@ == telemetry(input@, max_value_bytes as int),
{
    let (prefix, error) = match parse_authentication(input, max_value_bytes) {
        Ok(parsed) => {
            if parsed.unknown_token.is_none() {
                return parsed;
            }
            (parsed, "unrecognized TDS 5 token".to_owned())
        },
        Err(error) => (unread(input), error.to_string()),
    };
    let mut offset: usize = 1;
    let ghost max = max_value_bytes as int;
    while offset < input.len()
        invariant
            offset >= 1,
            prefix@.count() <= 4096,
            telemetry(input@, max_value_bytes as int) == recovery(
                input@,
                max_value_bytes as int,
                offset as int,
                prefix@,
                error@,
            ),
        decreases input.len() - offset,
    {
        if let Some(recovered) = recover_at(input, max_value_bytes, offset) {
            return join(recovered, input, max_value_bytes, offset, prefix, error);
        }
        offset += 1;
    }
    let mut stream = prefix;
    if stream.unparsed_regions.len() == 0 && input.len() > 0 {
        let end: usize = parsed_end(&stream, input);
        stream.unparsed_regions.push(
            Tds5UnparsedRegion {
                offset: end,
                bytes: input.len() - end,
                first_byte: first_byte(input, end),
            },
        );
    }
    stream.parse_warnings.push(error);
    stream
}

// ---------------------------------------------------------------------------
// Laws

/// A stream that can be read to its end is reported as it is read.
pub proof fn lemma_whole_streams_are_kept(input: Seq<u8>, max: int, stream: StreamView)
    requires
        authentication(input, max) == Ok::<StreamView, crate::error::ErrorView>(stream),
        stream.unknown_token is None,
    ensures
        telemetry(input, max) == stream,
{
}

proof fn lemma_recovery_tells(
    input: Seq<u8>,
    max: int,
    offset: int,
    prefix: StreamView,
    error: Seq<char>,
)
    requires
        1 <= offset,
    ensures
        recovery(input, max, offset, prefix, error).parse_warnings.len() > 0,
        input.len() > 0 ==> recovery(input, max, offset, prefix, error).unparsed_regions.len() > 0,
    decreases input.len() - offset,
{
    if offset < input.len() {
        match recovered_at(input, max, offset) {
            Some(_) => {},
            None => lemma_recovery_tells(input, max, offset + 1, prefix, error),
        }
    }
}

/// What is left out is never passed over in silence: a stream that cannot be read to its end is
/// reported with a warning, and with the region that was not read.
pub proof fn lemma_gaps_are_told(input: Seq<u8>, max: int)
    requires
        !(authentication(input, max) matches Ok(stream) && stream.unknown_token is None),
    ensures
        telemetry(input, max).parse_warnings.len() > 0,
        input.len() > 0 ==> telemetry(input, max).unparsed_regions.len() > 0,
{
    match authentication(input, max) {
        Ok(stream) => lemma_recovery_tells(input, max, 1, stream, "unrecognized TDS 5 token"@),
        Err(e) => lemma_recovery_tells(input, max, 1, unread_stream(input), e.message()),
    }
}

/// Whether a region lies in the input and begins with the byte that it tells, where there is
/// one.
pub open spec fn lies_in(region: Tds5UnparsedRegion, input: Seq<u8>) -> bool {
    &&& region.offset + region.bytes <= input.len()
    &&& region.first_byte == byte_at(input, region.offset as int)
}

/// Whether all regions of a stream lie in the input.
pub open spec fn regions_lie_in(stream: StreamView, input: Seq<u8>) -> bool {
    forall|i: int|
        0 <= i < stream.unparsed_regions.len() ==> lies_in(
            #[trigger] stream.unparsed_regions[i],
            input,
        )
}

proof fn lemma_joined(
    input: Seq<u8>,
    max: int,
    offset: int,
    stream: StreamView,
    prefix: StreamView,
    error: Seq<char>,
)
    requires
        1 <= offset < input.len() <= usize::MAX,
        recovered_at(input, max, offset) == Some(stream),
        0 <= max,
    ensures
        regions_lie_in(stream.joined(input, max, offset, prefix, error), input),
        stream.joined(input, max, offset, prefix, error).value_bytes() <= max,
{
    reveal(StreamView::behind);
    let rest = input.subrange(offset, input.len() as int);
    lemma_unknown_tokens_are_placed(rest, max);
    lemma_values_are_bounded(rest, max);
    lemma_reading_skips_nothing(rest, max);
    lemma_total_joins(prefix.parameter_value_bytes, stream.parameter_value_bytes);
    lemma_total_joins(prefix.row_value_bytes, stream.row_value_bytes);
    let all = stream.joined(input, max, offset, prefix, error).unparsed_regions;
    assert(lies_in(all[0], input));
    if stream.unknown_token is Some {
        let at = rest.len() - 1 - stream.trailing_bytes;
        assert(rest[at] == input[offset + at]);
        assert(all[1] == stream.trailing_region(input)[0]);
        assert(lies_in(all[1], input));
    }
}

proof fn lemma_recovery(
    input: Seq<u8>,
    max: int,
    offset: int,
    prefix: StreamView,
    error: Seq<char>,
)
    requires
        1 <= offset,
        input.len() <= usize::MAX,
        0 <= max,
        regions_lie_in(prefix, input),
        prefix.value_bytes() <= max,
    ensures
        regions_lie_in(recovery(input, max, offset, prefix, error), input),
        recovery(input, max, offset, prefix, error).value_bytes() <= max,
    decreases input.len() - offset,
{
    if offset < input.len() {
        match recovered_at(input, max, offset) {
            Some(stream) => lemma_joined(input, max, offset, stream, prefix, error),
            None => lemma_recovery(input, max, offset + 1, prefix, error),
        }
    }
}

/// Every region that is reported as unread lies in the input and is told with the byte that it
/// begins with; and the values that are reported never have more bytes in all than they may.
pub proof fn lemma_reports_stay_in_bounds(input: Seq<u8>, max: int)
    requires
        input.len() <= usize::MAX,
        0 <= max,
    ensures
        regions_lie_in(telemetry(input, max), input),
        telemetry(input, max).value_bytes() <= max,
{
    lemma_values_are_bounded(input, max);
    lemma_reading_skips_nothing(input, max);
    match authentication(input, max) {
        Ok(stream) => if stream.unknown_token is Some {
            lemma_recovery(input, max, 1, stream, "unrecognized TDS 5 token"@);
        },
        Err(e) => lemma_recovery(input, max, 1, unread_stream(input), e.message()),
    }
}

/// Whether a complete message of a published type stands at an offset.
pub open spec fn message_at(input: Seq<u8>, offset: int) -> bool {
    input[offset] == 0x65 && message_prefix(input.subrange(offset, input.len() as int))
}

proof fn lemma_nothing_recovered(
    input: Seq<u8>,
    max: int,
    offset: int,
    prefix: StreamView,
    error: Seq<char>,
)
    requires
        1 <= offset,
        forall|i: int| offset <= i < input.len() ==> !#[trigger] message_at(input, i),
    ensures
        recovery(input, max, offset, prefix, error) == prefix.given_up(input, error),
    decreases input.len() - offset,
{
    if offset < input.len() {
        assert(!message_at(input, offset));
        lemma_nothing_recovered(input, max, offset + 1, prefix, error);
    }
}

/// Bytes that cannot be read and hold no complete message behind their start are not taken for
/// credentials: nothing is reported of them but that they are there.
pub proof fn lemma_random_bytes_stay_unread(input: Seq<u8>, max: int)
    requires
        authentication(input, max) is Err,
        forall|i: int| 1 <= i < input.len() ==> !#[trigger] message_at(input, i),
    ensures
        ({
            let report = telemetry(input, max);
            &&& report.commands.len() == 0
            &&& report.tokens.len() == 0
            &&& report.message_types.len() == 0
            &&& report.raw_parameter_values.len() == 0
            &&& report.encrypted_login_password is None
            &&& report.encrypted_symmetric_key is None
        }),
{
    lemma_nothing_recovered(
        input,
        max,
        1,
        unread_stream(input),
        authentication(input, max)->Err_0.message(),
    );
}

} // verus!
