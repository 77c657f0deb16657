//! The PF4 structured message: its values, the guidance they describe, and the
//! parser from the protocol buffer encoding.
use crate::guidance::{
    opt_text, DestinationSide, Distance, DistanceUnit, ExitName, Guidance, InterchangeName,
    Intersection, KeepSide, LaneGuidance, SignName, SpecDistance, SpecGuidance, SpecIntersection,
    SpecSignName, StopSign, TrafficLight, Turn, TurnSharpness, TurnSide,
};
use crate::text::{
    decimal, decimal_text, free_of_controls, join, spaces, spaces_text, text_free_of_controls,
    text_is, utf8_error_text, utf8_text,
};
use crate::wire::{
    copy_wire_value, fields_view, lemma_payload_bound, lemma_payload_bound_le, payload_bound,
    payloads_shorter_than, protobuf_fields, read_fields, sint64_of, zigzag_decode, SpecWireField,
    SpecWireValue, WireField, WireValue,
};
use crate::debug_form::{
    list_form, push_str, push_text, raw_form, txt, value_form, write_list, write_raw, write_value,
};
use crate::render::{pieces_view, SpecPiece, TextPiece};
use vstd::prelude::*;
use vstd::utf8::{decode_utf8, valid_utf8};

verus! {

// ---------------------------------------------------------------------------
// The message's own values
// ---------------------------------------------------------------------------

/// A PF4 enum value (also the payload of a command): its type and its value.
#[derive(Debug)]
pub struct PF4Enum {
    pub enum_type: String,
    pub value: String,
}

/// A piece of natural-language text with its optional identifier.
#[derive(Debug)]
pub struct PF4NLGData {
    pub id: Option<String>,
    pub text: String,
}

#[derive(Debug)]
pub struct NLGData {
    pub text: String,
}

#[derive(Debug)]
pub struct Exits {
    pub names: Vec<NLGData>,
}

#[derive(Debug)]
pub struct Routes {
    pub names: Vec<NLGData>,
}

/// A key-value pair of a message, interpreted by its key.
#[derive(Debug)]
pub enum Value {
    Distance([u8; 8]),
    DistanceUnit(DistanceUnit),
    DistanceOverride(String),
    TurnSharpness(TurnSharpness),
    TurnSide(TurnSide),
    KeepSide(KeepSide),
    DestinationSide(DestinationSide),
    LaneGuidance(LaneGuidance),
    TrafficLight(TrafficLight),
    StopSign(StopSign),
    ExitName(ExitName),
    Exits(Exits),
    Maneuver(Guidance),
    Key(PF4Enum),
    Args(Vec<Value>),
    FirstStep(Guidance),
    SecondStep(Guidance),
    SignDirectName(String),
    SignIndirectName(String),
    Routes(Routes),
    IntersectionName(String),
    InterchangeName(InterchangeName),
    NLGData(NLGData),
}

/// The value field of a key-value pair, before its key gives it a meaning.
#[derive(Debug)]
pub enum PF4RawValue {
    /// field 3: a ZigZag-encoded signed integer
    IntValue(i64),
    /// field 4: a symbol
    SymbolValue(String),
    /// field 6: a double, its little-endian bytes
    FloatValue([u8; 8]),
    /// field 11: an enum
    EnumValue(PF4Enum),
    /// field 14: a command
    CommandValue(PF4Enum),
    /// field 15: natural-language text
    NLGData(PF4NLGData),
    /// field 16: nested key-value pairs
    KeyValueArray(Vec<Value>),
}

/// The commands of the `pathfinder4` command type.
#[derive(Debug, Clone, Copy, PartialEq, Eq, Structural)]
pub enum Command {
    StraightStep,
    TurnStep,
    UTurnStep,
    OnRampStep,
    OffRampStep,
    KeepOrForkStep,
    MergeStep,
    InterchangeStep,
    DestinationStepPrepare,
    DestinationStepAct,
    ContinueForDistance,
    PrepareDistanceMessage,
    CombineMergedGuidanceEvents,
}

/// The keys that a key-value pair may carry.
#[derive(Debug, Clone, Copy, PartialEq, Eq, Structural)]
pub enum KeyName {
    Distance,
    DistanceUnit,
    DistanceOverrideType,
    TurnSharpness,
    TurnSide,
    KeepSide,
    DestinationSide,
    LaneGuidanceType,
    TrafficLight,
    StopSign,
    ExitName,
    Exits,
    Maneuver,
    Key,
    Args,
    FirstStep,
    SecondStep,
    SignDirectName,
    SignIndirectName,
    Routes,
    IntersectionName,
    InterchangeName,
}

/// The message types of the encoding, as error reports name them.
#[derive(Debug, Clone, Copy, PartialEq, Eq, Structural)]
pub enum MessageKind {
    /// The outer `StructuredMessage`.
    Envelope,
    PF4Message,
    PF4MessageFields,
    PF4KeyValue,
    PF4Enum,
    PF4NLGData,
    PF4Command,
}

/// Why a message was refused.
#[derive(Debug)]
pub enum ParseError {
    /// The protocol buffer encoding itself is broken; the decoder's report.
    Wire(String),
    /// A text field is not valid UTF-8; the decoder's report.
    InvalidUtf8(String),
    /// A field number (or a field of that number with that wire type) that the
    /// message does not have, or that it has already had.
    UnexpectedField(MessageKind, u32),
    /// A field that the message requires is absent.
    MissingField(MessageKind),
    /// A key-value pair with two keys.
    DuplicateKey,
    /// A key-value pair whose key is not length-delimited; the key field's value.
    UnexpectedKeyType(WireValue),
    /// A key-value pair with two values; the first of them.
    DuplicateValue(PF4RawValue),
    /// A key-value pair without a key whose value is not text data.
    MissingKey,
    /// An argument that the command does not take: the first such argument.
    UnknownArgs(Command, Value),
    /// Arguments given to the command that takes none (`pf_destinationstep_act`).
    UnexpectedArgs(Vec<Value>),
    /// An argument that the command requires is absent.
    MissingArgs(Command),
    /// An on-ramp step with a turn sharpness but no side, or a side but no sharpness.
    MismatchedTurn,
    /// A `pathfinder4` command with this unknown value.
    UnknownCommandValue(String),
    /// A command of this unknown type.
    UnknownCommandType(String),
    /// A symbol (or enum value) that the key does not allow.
    UnexpectedSymbol(KeyName, String),
    /// A list under this key holds an item that it does not allow: that item.
    UnknownItem(KeyName, Value),
    /// A step under this key does not hold exactly two items: its items.
    UnknownStep(KeyName, Vec<Value>),
    /// A step under this key holds two items that are not a command key and
    /// its arguments: the two items.
    UnknownStepParts(KeyName, Value, Value),
    /// A list under this key holds no item.
    MissingItems(KeyName),
    /// A key that is unknown, or known but with a value of the wrong kind: the
    /// key and the value.
    UnknownKeyValue(String, PF4RawValue),
}

// ---------------------------------------------------------------------------
// Models
// ---------------------------------------------------------------------------

pub struct SpecEnum {
    pub enum_type: Seq<char>,
    pub value: Seq<char>,
}

pub struct SpecNLGData {
    pub id: Option<Seq<char>>,
    pub text: Seq<char>,
}

pub enum SpecValue {
    Distance([u8; 8]),
    DistanceUnit(DistanceUnit),
    DistanceOverride(Seq<char>),
    TurnSharpness(TurnSharpness),
    TurnSide(TurnSide),
    KeepSide(KeepSide),
    DestinationSide(DestinationSide),
    LaneGuidance(LaneGuidance),
    TrafficLight(TrafficLight),
    StopSign(StopSign),
    ExitName(Seq<char>),
    Exits(Seq<Seq<char>>),
    Maneuver(SpecGuidance),
    Key(SpecEnum),
    Args(Seq<SpecValue>),
    FirstStep(SpecGuidance),
    SecondStep(SpecGuidance),
    SignDirectName(Seq<char>),
    SignIndirectName(Seq<char>),
    Routes(Seq<Seq<char>>),
    IntersectionName(Seq<char>),
    InterchangeName(Seq<char>),
    NLGData(Seq<char>),
}

pub enum SpecRawValue {
    IntValue(i64),
    SymbolValue(Seq<char>),
    FloatValue([u8; 8]),
    EnumValue(SpecEnum),
    CommandValue(SpecEnum),
    NLGData(SpecNLGData),
    KeyValueArray(Seq<SpecValue>),
}

pub enum SpecParseError {
    Wire(Seq<char>),
    InvalidUtf8(Seq<char>),
    UnexpectedField(MessageKind, u32),
    MissingField(MessageKind),
    DuplicateKey,
    UnexpectedKeyType(SpecWireValue),
    DuplicateValue(SpecRawValue),
    MissingKey,
    UnknownArgs(Command, SpecValue),
    UnexpectedArgs(Seq<SpecValue>),
    MissingArgs(Command),
    MismatchedTurn,
    UnknownCommandValue(Seq<char>),
    UnknownCommandType(Seq<char>),
    UnexpectedSymbol(KeyName, Seq<char>),
    UnknownItem(KeyName, SpecValue),
    UnknownStep(KeyName, Seq<SpecValue>),
    UnknownStepParts(KeyName, SpecValue, SpecValue),
    MissingItems(KeyName),
    UnknownKeyValue(Seq<char>, SpecRawValue),
}

impl View for PF4Enum {
    type V = SpecEnum;

    open spec fn view(&self) -> SpecEnum {
        SpecEnum { enum_type: self.enum_type@, value: self.value@ }
    }
}

impl View for PF4NLGData {
    type V = SpecNLGData;

    open spec fn view(&self) -> SpecNLGData {
        SpecNLGData { id: opt_text(self.id), text: self.text@ }
    }
}

pub open spec fn nlg_texts(names: Seq<NLGData>) -> Seq<Seq<char>> {
    names.map_values(|n: NLGData| n.text@)
}

pub open spec fn value_model(v: Value) -> SpecValue
    decreases v,
{
    match v {
        Value::Distance(b) => SpecValue::Distance(b),
        Value::DistanceUnit(u) => SpecValue::DistanceUnit(u),
        Value::DistanceOverride(s) => SpecValue::DistanceOverride(s@),
        Value::TurnSharpness(x) => SpecValue::TurnSharpness(x),
        Value::TurnSide(x) => SpecValue::TurnSide(x),
        Value::KeepSide(x) => SpecValue::KeepSide(x),
        Value::DestinationSide(x) => SpecValue::DestinationSide(x),
        Value::LaneGuidance(x) => SpecValue::LaneGuidance(x),
        Value::TrafficLight(x) => SpecValue::TrafficLight(x),
        Value::StopSign(x) => SpecValue::StopSign(x),
        Value::ExitName(n) => SpecValue::ExitName(n.name@),
        Value::Exits(e) => SpecValue::Exits(nlg_texts(e.names@)),
        Value::Maneuver(g) => SpecValue::Maneuver(g@),
        Value::Key(k) => SpecValue::Key(k@),
        Value::Args(vs) => SpecValue::Args(values_model(vs@)),
        Value::FirstStep(g) => SpecValue::FirstStep(g@),
        Value::SecondStep(g) => SpecValue::SecondStep(g@),
        Value::SignDirectName(s) => SpecValue::SignDirectName(s@),
        Value::SignIndirectName(s) => SpecValue::SignIndirectName(s@),
        Value::Routes(r) => SpecValue::Routes(nlg_texts(r.names@)),
        Value::IntersectionName(s) => SpecValue::IntersectionName(s@),
        Value::InterchangeName(n) => SpecValue::InterchangeName(n.name@),
        Value::NLGData(d) => SpecValue::NLGData(d.text@),
    }
}

pub open spec fn values_model(s: Seq<Value>) -> Seq<SpecValue>
    decreases s,
{
    if s.len() == 0 {
        Seq::empty()
    } else {
        values_model(s.subrange(0, s.len() - 1)).push(value_model(s[s.len() - 1]))
    }
}

impl View for Value {
    type V = SpecValue;

    open spec fn view(&self) -> SpecValue {
        value_model(*self)
    }
}

pub proof fn lemma_values_model(s: Seq<Value>)
    ensures
        values_model(s).len() == s.len(),
        forall|i: int| 0 <= i < s.len() ==> #[trigger] values_model(s)[i] == s[i]@,
    decreases s.len(),
{
    if s.len() > 0 {
        lemma_values_model(s.subrange(0, s.len() - 1));
    }
}

impl View for ParseError {
    type V = SpecParseError;

    open spec fn view(&self) -> SpecParseError {
        match self {
            ParseError::Wire(s) => SpecParseError::Wire(s@),
            ParseError::InvalidUtf8(s) => SpecParseError::InvalidUtf8(s@),
            ParseError::UnexpectedField(m, n) => SpecParseError::UnexpectedField(*m, *n),
            ParseError::MissingField(m) => SpecParseError::MissingField(*m),
            ParseError::DuplicateKey => SpecParseError::DuplicateKey,
            ParseError::UnexpectedKeyType(v) => SpecParseError::UnexpectedKeyType(v@),
            ParseError::DuplicateValue(r) => SpecParseError::DuplicateValue(r@),
            ParseError::MissingKey => SpecParseError::MissingKey,
            ParseError::UnknownArgs(c, v) => SpecParseError::UnknownArgs(*c, v@),
            ParseError::UnexpectedArgs(vs) => SpecParseError::UnexpectedArgs(values_model(vs@)),
            ParseError::MissingArgs(c) => SpecParseError::MissingArgs(*c),
            ParseError::MismatchedTurn => SpecParseError::MismatchedTurn,
            ParseError::UnknownCommandValue(s) => SpecParseError::UnknownCommandValue(s@),
            ParseError::UnknownCommandType(s) => SpecParseError::UnknownCommandType(s@),
            ParseError::UnexpectedSymbol(k, s) => SpecParseError::UnexpectedSymbol(*k, s@),
            ParseError::UnknownItem(k, v) => SpecParseError::UnknownItem(*k, v@),
            ParseError::UnknownStep(k, vs) => SpecParseError::UnknownStep(*k, values_model(vs@)),
            ParseError::UnknownStepParts(k, a, b) => SpecParseError::UnknownStepParts(*k, a@, b@),
            ParseError::MissingItems(k) => SpecParseError::MissingItems(*k),
            ParseError::UnknownKeyValue(s, r) => SpecParseError::UnknownKeyValue(s@, r@),
        }
    }
}

/// A result taken by the views of its values.
pub open spec fn result_view<T: View, E: View>(r: Result<T, E>) -> Result<T::V, E::V> {
    match r {
        Ok(t) => Ok(t@),
        Err(e) => Err(e@),
    }
}

// ---------------------------------------------------------------------------
// Commands and their arguments
// ---------------------------------------------------------------------------

/// The command that a `pathfinder4` command value names.
pub open spec fn command_of(v: Seq<char>) -> Option<Command> {
    if v == "pf_straightstep"@ {
        Some(Command::StraightStep)
    } else if v == "pf_turnstep"@ {
        Some(Command::TurnStep)
    } else if v == "pf_uturnstep"@ {
        Some(Command::UTurnStep)
    } else if v == "pf_onrampstep"@ {
        Some(Command::OnRampStep)
    } else if v == "pf_offrampstep"@ {
        Some(Command::OffRampStep)
    } else if v == "pf_keeporforkstep"@ {
        Some(Command::KeepOrForkStep)
    } else if v == "pf_mergestep"@ {
        Some(Command::MergeStep)
    } else if v == "pf_interchangestep"@ {
        Some(Command::InterchangeStep)
    } else if v == "pf_destinationstep_prepare"@ {
        Some(Command::DestinationStepPrepare)
    } else if v == "pf_destinationstep_act"@ {
        Some(Command::DestinationStepAct)
    } else if v == "continue_for_distance"@ {
        Some(Command::ContinueForDistance)
    } else if v == "prepare_distance_message"@ {
        Some(Command::PrepareDistanceMessage)
    } else if v == "combine_merged_guidance_events"@ {
        Some(Command::CombineMergedGuidanceEvents)
    } else {
        None
    }
}

/// Whether the command takes `v` among its arguments.
pub open spec fn takes_arg(c: Command, v: SpecValue) -> bool {
    match c {
        Command::StraightStep | Command::MergeStep => v is LaneGuidance,
        Command::TurnStep => {
            ||| v is LaneGuidance
            ||| v is TurnSharpness
            ||| v is TurnSide
            ||| v is IntersectionName
            ||| v is TrafficLight
            ||| v is StopSign
        },
        Command::UTurnStep => v is IntersectionName,
        Command::OnRampStep => {
            ||| v is LaneGuidance
            ||| v is TurnSharpness
            ||| v is TurnSide
            ||| v is IntersectionName
            ||| v is TrafficLight
            ||| v is SignDirectName
            ||| v is SignIndirectName
        },
        Command::OffRampStep => {
            ||| v is LaneGuidance
            ||| v is ExitName
            ||| v is SignDirectName
            ||| v is SignIndirectName
        },
        Command::KeepOrForkStep => v is LaneGuidance || v is KeepSide,
        Command::InterchangeStep => {
            ||| v is LaneGuidance
            ||| v is InterchangeName
            ||| v is SignDirectName
            ||| v is SignIndirectName
        },
        Command::DestinationStepPrepare => v is DestinationSide,
        Command::DestinationStepAct => false,
        Command::ContinueForDistance => v is Distance || v is DistanceUnit || v is DistanceOverride,
        Command::PrepareDistanceMessage => {
            ||| v is Distance
            ||| v is DistanceUnit
            ||| v is DistanceOverride
            ||| v is Maneuver
        },
        Command::CombineMergedGuidanceEvents => v is FirstStep || v is SecondStep,
    }
}

/// The command takes every one of `args`.
pub open spec fn takes_all(c: Command, args: Seq<SpecValue>) -> bool {
    forall|i: int| 0 <= i < args.len() ==> takes_arg(c, #[trigger] args[i])
}

/// The first of `args` that the command does not take, if any.
pub open spec fn first_refused(c: Command, args: Seq<SpecValue>) -> Option<SpecValue>
    decreases args.len(),
{
    if args.len() == 0 {
        None
    } else if !takes_arg(c, args[0]) {
        Some(args[0])
    } else {
        first_refused(c, args.drop_first())
    }
}

/// No argument is refused exactly when the command takes them all; after a
/// prefix that it takes, the first refused argument is that of the rest.
pub proof fn lemma_first_refused(c: Command, args: Seq<SpecValue>, k: int)
    requires
        0 <= k <= args.len(),
        takes_all(c, args.take(k)),
    ensures
        first_refused(c, args) == first_refused(c, args.skip(k)),
        first_refused(c, args) is None <==> takes_all(c, args),
    decreases args.len(),
{
    if args.len() > 0 {
        let rest = args.drop_first();
        if k > 0 {
            assert(args.take(k)[0] == args[0]);
            assert(takes_all(c, rest.take(k - 1))) by {
                assert forall|i: int| 0 <= i < k - 1 implies takes_arg(c, #[trigger] rest.take(k - 1)[i]) by {
                    assert(rest.take(k - 1)[i] == args.take(k)[i + 1]);
                }
            }
            lemma_first_refused(c, rest, k - 1);
            assert(rest.skip(k - 1) =~= args.skip(k));
        } else {
            assert(args.skip(0) =~= args);
            assert(takes_all(c, rest.take(0)));
            lemma_first_refused(c, rest, 0);
        }
        if takes_all(c, args) {
            assert(takes_all(c, rest)) by {
                assert forall|i: int| 0 <= i < rest.len() implies takes_arg(c, #[trigger] rest[i]) by {
                    assert(rest[i] == args[i + 1]);
                }
            }
        }
        if takes_arg(c, args[0]) && takes_all(c, rest) {
            assert forall|i: int| 0 <= i < args.len() implies takes_arg(c, #[trigger] args[i]) by {
                if i > 0 {
                    assert(args[i] == rest[i - 1]);
                }
            }
        }
    } else {
        assert(args.skip(k) =~= args);
    }
}

/// The kind of a value: which of the variants it is.
pub open spec fn arg_kind(v: SpecValue) -> u8 {
    match v {
        SpecValue::Distance(..) => 0,
        SpecValue::DistanceUnit(..) => 1,
        SpecValue::DistanceOverride(..) => 2,
        SpecValue::TurnSharpness(..) => 3,
        SpecValue::TurnSide(..) => 4,
        SpecValue::KeepSide(..) => 5,
        SpecValue::DestinationSide(..) => 6,
        SpecValue::LaneGuidance(..) => 7,
        SpecValue::TrafficLight(..) => 8,
        SpecValue::StopSign(..) => 9,
        SpecValue::ExitName(..) => 10,
        SpecValue::Exits(..) => 11,
        SpecValue::Maneuver(..) => 12,
        SpecValue::Key(..) => 13,
        SpecValue::Args(..) => 14,
        SpecValue::FirstStep(..) => 15,
        SpecValue::SecondStep(..) => 16,
        SpecValue::SignDirectName(..) => 17,
        SpecValue::SignIndirectName(..) => 18,
        SpecValue::Routes(..) => 19,
        SpecValue::IntersectionName(..) => 20,
        SpecValue::InterchangeName(..) => 21,
        SpecValue::NLGData(..) => 22,
    }
}

/// The last of `args` of kind `k`.
pub open spec fn last_of_kind(args: Seq<SpecValue>, k: u8) -> Option<SpecValue>
    decreases args.len(),
{
    if args.len() == 0 {
        None
    } else if arg_kind(args.last()) == k {
        Some(args.last())
    } else {
        last_of_kind(args.drop_last(), k)
    }
}

pub open spec fn last_lane(args: Seq<SpecValue>) -> Option<LaneGuidance> {
    match last_of_kind(args, 7) {
        Some(SpecValue::LaneGuidance(x)) => Some(x),
        _ => None,
    }
}

pub open spec fn last_sharpness(args: Seq<SpecValue>) -> Option<TurnSharpness> {
    match last_of_kind(args, 3) {
        Some(SpecValue::TurnSharpness(x)) => Some(x),
        _ => None,
    }
}

pub open spec fn last_turn_side(args: Seq<SpecValue>) -> Option<TurnSide> {
    match last_of_kind(args, 4) {
        Some(SpecValue::TurnSide(x)) => Some(x),
        _ => None,
    }
}

pub open spec fn last_keep_side(args: Seq<SpecValue>) -> Option<KeepSide> {
    match last_of_kind(args, 5) {
        Some(SpecValue::KeepSide(x)) => Some(x),
        _ => None,
    }
}

pub open spec fn last_destination_side(args: Seq<SpecValue>) -> Option<DestinationSide> {
    match last_of_kind(args, 6) {
        Some(SpecValue::DestinationSide(x)) => Some(x),
        _ => None,
    }
}

pub open spec fn last_intersection_name(args: Seq<SpecValue>) -> Option<Seq<char>> {
    match last_of_kind(args, 20) {
        Some(SpecValue::IntersectionName(x)) => Some(x),
        _ => None,
    }
}

pub open spec fn last_traffic_light(args: Seq<SpecValue>) -> Option<TrafficLight> {
    match last_of_kind(args, 8) {
        Some(SpecValue::TrafficLight(x)) => Some(x),
        _ => None,
    }
}

pub open spec fn last_stop_sign(args: Seq<SpecValue>) -> Option<StopSign> {
    match last_of_kind(args, 9) {
        Some(SpecValue::StopSign(x)) => Some(x),
        _ => None,
    }
}

pub open spec fn last_sign_direct(args: Seq<SpecValue>) -> Option<Seq<char>> {
    match last_of_kind(args, 17) {
        Some(SpecValue::SignDirectName(x)) => Some(x),
        _ => None,
    }
}

pub open spec fn last_sign_indirect(args: Seq<SpecValue>) -> Option<Seq<char>> {
    match last_of_kind(args, 18) {
        Some(SpecValue::SignIndirectName(x)) => Some(x),
        _ => None,
    }
}

pub open spec fn last_exit_name(args: Seq<SpecValue>) -> Option<Seq<char>> {
    match last_of_kind(args, 10) {
        Some(SpecValue::ExitName(x)) => Some(x),
        _ => None,
    }
}

pub open spec fn last_interchange_name(args: Seq<SpecValue>) -> Option<Seq<char>> {
    match last_of_kind(args, 21) {
        Some(SpecValue::InterchangeName(x)) => Some(x),
        _ => None,
    }
}

pub open spec fn last_distance(args: Seq<SpecValue>) -> Option<[u8; 8]> {
    match last_of_kind(args, 0) {
        Some(SpecValue::Distance(x)) => Some(x),
        _ => None,
    }
}

pub open spec fn last_distance_unit(args: Seq<SpecValue>) -> Option<DistanceUnit> {
    match last_of_kind(args, 1) {
        Some(SpecValue::DistanceUnit(x)) => Some(x),
        _ => None,
    }
}

pub open spec fn last_distance_override(args: Seq<SpecValue>) -> Option<Seq<char>> {
    match last_of_kind(args, 2) {
        Some(SpecValue::DistanceOverride(x)) => Some(x),
        _ => None,
    }
}

pub open spec fn last_maneuver(args: Seq<SpecValue>) -> Option<SpecGuidance> {
    match last_of_kind(args, 12) {
        Some(SpecValue::Maneuver(x)) => Some(x),
        _ => None,
    }
}

pub open spec fn last_first_step(args: Seq<SpecValue>) -> Option<SpecGuidance> {
    match last_of_kind(args, 15) {
        Some(SpecValue::FirstStep(x)) => Some(x),
        _ => None,
    }
}

pub open spec fn last_second_step(args: Seq<SpecValue>) -> Option<SpecGuidance> {
    match last_of_kind(args, 16) {
        Some(SpecValue::SecondStep(x)) => Some(x),
        _ => None,
    }
}

pub open spec fn spec_sign_name(args: Seq<SpecValue>) -> SpecSignName {
    SpecSignName { direct: last_sign_direct(args), indirect: last_sign_indirect(args) }
}

pub open spec fn spec_distance(value: [u8; 8], unit: DistanceUnit, args: Seq<SpecValue>) -> SpecDistance {
    SpecDistance { value_bytes: value, unit, distance_override: last_distance_override(args) }
}

/// The guidance that command `c` builds from `args`, all of which it takes.
pub open spec fn build_guidance(c: Command, args: Seq<SpecValue>) -> Result<SpecGuidance, SpecParseError> {
    let lane = last_lane(args);
    match c {
        Command::StraightStep => Ok(SpecGuidance::StraightStep(lane)),
        Command::TurnStep => match (last_sharpness(args), last_turn_side(args)) {
            (Some(sharpness), Some(side)) => Ok(
                SpecGuidance::TurnStep(
                    Turn { sharpness, side },
                    lane,
                    SpecIntersection {
                        name: last_intersection_name(args),
                        traffic_light: last_traffic_light(args),
                        stop_sign: last_stop_sign(args),
                    },
                ),
            ),
            _ => Err(SpecParseError::MissingArgs(c)),
        },
        Command::UTurnStep => Ok(
            SpecGuidance::UTurnStep(
                SpecIntersection {
                    name: last_intersection_name(args),
                    traffic_light: None,
                    stop_sign: None,
                },
            ),
        ),
        Command::OnRampStep => {
            let intersection = SpecIntersection {
                name: last_intersection_name(args),
                traffic_light: last_traffic_light(args),
                stop_sign: None,
            };
            match (last_sharpness(args), last_turn_side(args)) {
                (Some(sharpness), Some(side)) => Ok(
                    SpecGuidance::OnRampStep(
                        Some(Turn { sharpness, side }),
                        lane,
                        intersection,
                        spec_sign_name(args),
                    ),
                ),
                (None, None) => Ok(
                    SpecGuidance::OnRampStep(None, lane, intersection, spec_sign_name(args)),
                ),
                _ => Err(SpecParseError::MismatchedTurn),
            }
        },
        Command::OffRampStep => Ok(
            SpecGuidance::OffRampStep(lane, last_exit_name(args), spec_sign_name(args)),
        ),
        Command::KeepOrForkStep => match last_keep_side(args) {
            Some(side) => Ok(SpecGuidance::KeepOrForkStep(side, lane)),
            None => Err(SpecParseError::MissingArgs(c)),
        },
        Command::MergeStep => Ok(SpecGuidance::MergeStep(lane)),
        Command::InterchangeStep => match last_interchange_name(args) {
            Some(name) => Ok(SpecGuidance::InterchangeStep(lane, name, spec_sign_name(args))),
            None => Err(SpecParseError::MissingArgs(c)),
        },
        Command::DestinationStepPrepare => Ok(
            SpecGuidance::DestinationStepPrepare(last_destination_side(args)),
        ),
        Command::DestinationStepAct => Ok(SpecGuidance::DestinationStepAct),
        Command::ContinueForDistance => match (last_distance(args), last_distance_unit(args)) {
            (Some(value), Some(unit)) => Ok(
                SpecGuidance::ContinueForDistance(spec_distance(value, unit, args)),
            ),
            _ => Err(SpecParseError::MissingArgs(c)),
        },
        Command::PrepareDistanceMessage => match (
            last_distance(args),
            last_distance_unit(args),
            last_maneuver(args),
        ) {
            (Some(value), Some(unit), Some(maneuver)) => Ok(
                SpecGuidance::PrepareDistanceMessage(
                    spec_distance(value, unit, args),
                    Box::new(maneuver),
                ),
            ),
            _ => Err(SpecParseError::MissingArgs(c)),
        },
        Command::CombineMergedGuidanceEvents => match (
            last_first_step(args),
            last_second_step(args),
        ) {
            (Some(first), Some(second)) => Ok(
                SpecGuidance::CombineMergedGuidanceEvents(Box::new(first), Box::new(second)),
            ),
            _ => Err(SpecParseError::MissingArgs(c)),
        },
    }
}

/// The guidance that a command with its arguments stands for.
///
/// The command type must be `pathfinder4` and its value one of the known
/// commands; every argument must be one that the command takes, and where an
/// argument kind occurs more than once the last occurrence counts.
pub open spec fn spec_map_guidance(command: SpecEnum, args: Seq<SpecValue>) -> Result<SpecGuidance, SpecParseError> {
    if command.enum_type != "pathfinder4"@ {
        Err(SpecParseError::UnknownCommandType(command.enum_type))
    } else {
        match command_of(command.value) {
            None => Err(SpecParseError::UnknownCommandValue(command.value)),
            Some(c) => if c == Command::DestinationStepAct && args.len() > 0 {
                Err(SpecParseError::UnexpectedArgs(args))
            } else {
                match first_refused(c, args) {
                    None => build_guidance(c, args),
                    Some(v) => Err(SpecParseError::UnknownArgs(c, v)),
                }
            },
        }
    }
}


/// The arguments collected for a command, the last of each kind.
struct ArgSlots {
    lane: Option<LaneGuidance>,
    sharpness: Option<TurnSharpness>,
    side: Option<TurnSide>,
    keep: Option<KeepSide>,
    destination: Option<DestinationSide>,
    intersection_name: Option<String>,
    traffic_light: Option<TrafficLight>,
    stop_sign: Option<StopSign>,
    sign_direct: Option<String>,
    sign_indirect: Option<String>,
    exit: Option<ExitName>,
    interchange: Option<InterchangeName>,
    distance: Option<[u8; 8]>,
    unit: Option<DistanceUnit>,
    distance_override: Option<String>,
    maneuver: Option<Guidance>,
    first: Option<Guidance>,
    second: Option<Guidance>,
}

pub open spec fn opt_guidance(g: Option<Guidance>) -> Option<SpecGuidance> {
    match g {
        Some(x) => Some(x@),
        None => None,
    }
}

spec fn slots_hold(s: ArgSlots, args: Seq<SpecValue>) -> bool {
    &&& s.lane == last_lane(args)
    &&& s.sharpness == last_sharpness(args)
    &&& s.side == last_turn_side(args)
    &&& s.keep == last_keep_side(args)
    &&& s.destination == last_destination_side(args)
    &&& opt_text(s.intersection_name) == last_intersection_name(args)
    &&& s.traffic_light == last_traffic_light(args)
    &&& s.stop_sign == last_stop_sign(args)
    &&& opt_text(s.sign_direct) == last_sign_direct(args)
    &&& opt_text(s.sign_indirect) == last_sign_indirect(args)
    &&& (match s.exit {
        Some(e) => Some(e.name@),
        None => None,
    }) == last_exit_name(args)
    &&& (match s.interchange {
        Some(e) => Some(e.name@),
        None => None,
    }) == last_interchange_name(args)
    &&& s.distance == last_distance(args)
    &&& s.unit == last_distance_unit(args)
    &&& opt_text(s.distance_override) == last_distance_override(args)
    &&& opt_guidance(s.maneuver) == last_maneuver(args)
    &&& opt_guidance(s.first) == last_first_step(args)
    &&& opt_guidance(s.second) == last_second_step(args)
}

fn arg_taken(c: Command, v: &Value) -> (r: bool)
    ensures
        r == takes_arg(c, v@),
{
    match c {
        Command::StraightStep | Command::MergeStep => matches!(v, Value::LaneGuidance(_)),
        Command::TurnStep => matches!(
            v,
            Value::LaneGuidance(_) | Value::TurnSharpness(_) | Value::TurnSide(_)
                | Value::IntersectionName(_) | Value::TrafficLight(_) | Value::StopSign(_)
        ),
        Command::UTurnStep => matches!(v, Value::IntersectionName(_)),
        Command::OnRampStep => matches!(
            v,
            Value::LaneGuidance(_) | Value::TurnSharpness(_) | Value::TurnSide(_)
                | Value::IntersectionName(_) | Value::TrafficLight(_) | Value::SignDirectName(_)
                | Value::SignIndirectName(_)
        ),
        Command::OffRampStep => matches!(
            v,
            Value::LaneGuidance(_) | Value::ExitName(_) | Value::SignDirectName(_)
                | Value::SignIndirectName(_)
        ),
        Command::KeepOrForkStep => matches!(v, Value::LaneGuidance(_) | Value::KeepSide(_)),
        Command::InterchangeStep => matches!(
            v,
            Value::LaneGuidance(_) | Value::InterchangeName(_) | Value::SignDirectName(_)
                | Value::SignIndirectName(_)
        ),
        Command::DestinationStepPrepare => matches!(v, Value::DestinationSide(_)),
        Command::DestinationStepAct => false,
        Command::ContinueForDistance => matches!(
            v,
            Value::Distance(_) | Value::DistanceUnit(_) | Value::DistanceOverride(_)
        ),
        Command::PrepareDistanceMessage => matches!(
            v,
            Value::Distance(_) | Value::DistanceUnit(_) | Value::DistanceOverride(_)
                | Value::Maneuver(_)
        ),
        Command::CombineMergedGuidanceEvents => matches!(
            v,
            Value::FirstStep(_) | Value::SecondStep(_)
        ),
    }
}

/// Collects the arguments of command `c`, refusing any that it does not take.
fn collect_args(c: Command, args: Vec<Value>) -> (r: Result<ArgSlots, ParseError>)
    ensures
        match r {
            Ok(s) => first_refused(c, values_model(args@)) is None && slots_hold(
                s,
                values_model(args@),
            ),
            Err(e) => first_refused(c, values_model(args@)) matches Some(v) && e@
                == SpecParseError::UnknownArgs(c, v),
        },
{
    let ghost orig = args@;
    let ghost model = values_model(orig);
    proof {
        lemma_values_model(orig);
    }
    let mut slots = ArgSlots {
        lane: None,
        sharpness: None,
        side: None,
        keep: None,
        destination: None,
        intersection_name: None,
        traffic_light: None,
        stop_sign: None,
        sign_direct: None,
        sign_indirect: None,
        exit: None,
        interchange: None,
        distance: None,
        unit: None,
        distance_override: None,
        maneuver: None,
        first: None,
        second: None,
    };
    let mut rest = args;
    let n = rest.len();
    let mut k: usize = 0;
    assert(orig.skip(0) =~= orig);
    while rest.len() > 0
        invariant
            model == values_model(orig),
            model.len() == orig.len(),
            forall|i: int| 0 <= i < orig.len() ==> #[trigger] model[i] == orig[i]@,
            k <= orig.len(),
            rest@ == orig.skip(k as int),
            orig == args@,
            orig.len() <= usize::MAX,
            takes_all(c, model.take(k as int)),
            slots_hold(slots, model.take(k as int)),
        decreases rest.len(),
    {
        assert(rest@.len() == orig.len() - k);
        let arg = rest.remove(0);
        assert(arg == orig[k as int]);
        let ghost prefix = model.take(k + 1);
        assert(prefix.drop_last() =~= model.take(k as int));
        assert(prefix.last() == arg@);
        assert forall|kind: u8| #[trigger] last_of_kind(prefix, kind) == if arg_kind(arg@) == kind {
            Some(arg@)
        } else {
            last_of_kind(model.take(k as int), kind)
        } by {}
        if !arg_taken(c, &arg) {
            proof {
                lemma_first_refused(c, model, k as int);
                assert(model.skip(k as int)[0] == model[k as int]);
            }
            return Err(ParseError::UnknownArgs(c, arg));
        }
        match arg {
            Value::LaneGuidance(v) => slots.lane = Some(v),
            Value::TurnSharpness(v) => slots.sharpness = Some(v),
            Value::TurnSide(v) => slots.side = Some(v),
            Value::KeepSide(v) => slots.keep = Some(v),
            Value::DestinationSide(v) => slots.destination = Some(v),
            Value::IntersectionName(v) => slots.intersection_name = Some(v),
            Value::TrafficLight(v) => slots.traffic_light = Some(v),
            Value::StopSign(v) => slots.stop_sign = Some(v),
            Value::SignDirectName(v) => slots.sign_direct = Some(v),
            Value::SignIndirectName(v) => slots.sign_indirect = Some(v),
            Value::ExitName(v) => slots.exit = Some(v),
            Value::InterchangeName(v) => slots.interchange = Some(v),
            Value::Distance(v) => slots.distance = Some(v),
            Value::DistanceUnit(v) => slots.unit = Some(v),
            Value::DistanceOverride(v) => slots.distance_override = Some(v),
            Value::Maneuver(v) => slots.maneuver = Some(v),
            Value::FirstStep(v) => slots.first = Some(v),
            Value::SecondStep(v) => slots.second = Some(v),
            _ => {},
        }
        assert(orig.skip(k as int).remove(0) =~= orig.skip(k + 1));
        k += 1;
        assert(takes_all(c, model.take(k as int))) by {
            assert forall|i: int| 0 <= i < k implies takes_arg(c, #[trigger] model.take(k as int)[i]) by {
                if i < k - 1 {
                    assert(model.take(k as int)[i] == model.take(k - 1)[i]);
                }
            }
        }
    }
    assert(model.take(k as int) =~= model);
    proof {
        lemma_first_refused(c, model, 0);
        assert(model.take(0) =~= Seq::<SpecValue>::empty());
    }
    Ok(slots)
}

/// Builds the guidance of command `c` from its collected arguments.
fn build_from_slots(c: Command, slots: ArgSlots, Ghost(args): Ghost<Seq<SpecValue>>) -> (r: Result<Guidance, ParseError>)
    requires
        slots_hold(slots, args),
    ensures
        result_view(r) == build_guidance(c, args),
{
    let ArgSlots {
        lane,
        sharpness,
        side,
        keep,
        destination,
        intersection_name,
        traffic_light,
        stop_sign,
        sign_direct,
        sign_indirect,
        exit,
        interchange,
        distance,
        unit,
        distance_override,
        maneuver,
        first,
        second,
    } = slots;
    match c {
        Command::StraightStep => Ok(Guidance::StraightStep(lane)),
        Command::TurnStep => match (sharpness, side) {
            (Some(sharpness), Some(side)) => Ok(
                Guidance::TurnStep(
                    Turn { sharpness, side },
                    lane,
                    Intersection { name: intersection_name, traffic_light, stop_sign },
                ),
            ),
            _ => Err(ParseError::MissingArgs(c)),
        },
        Command::UTurnStep => Ok(
            Guidance::UTurnStep(
                Intersection { name: intersection_name, traffic_light: None, stop_sign: None },
            ),
        ),
        Command::OnRampStep => {
            let turn = match (sharpness, side) {
                (Some(sharpness), Some(side)) => Some(Turn { sharpness, side }),
                (None, None) => None,
                _ => return Err(ParseError::MismatchedTurn),
            };
            Ok(
                Guidance::OnRampStep(
                    turn,
                    lane,
                    Intersection { name: intersection_name, traffic_light, stop_sign: None },
                    SignName { direct: sign_direct, indirect: sign_indirect },
                ),
            )
        },
        Command::OffRampStep => Ok(
            Guidance::OffRampStep(
                lane,
                exit,
                SignName { direct: sign_direct, indirect: sign_indirect },
            ),
        ),
        Command::KeepOrForkStep => match keep {
            Some(side) => Ok(Guidance::KeepOrForkStep(side, lane)),
            None => Err(ParseError::MissingArgs(c)),
        },
        Command::MergeStep => Ok(Guidance::MergeStep(lane)),
        Command::InterchangeStep => match interchange {
            Some(name) => Ok(
                Guidance::InterchangeStep(
                    lane,
                    name,
                    SignName { direct: sign_direct, indirect: sign_indirect },
                ),
            ),
            None => Err(ParseError::MissingArgs(c)),
        },
        Command::DestinationStepPrepare => Ok(Guidance::DestinationStepPrepare(destination)),
        Command::DestinationStepAct => Ok(Guidance::DestinationStepAct),
        Command::ContinueForDistance => match (distance, unit) {
            (Some(value_bytes), Some(unit)) => Ok(
                Guidance::ContinueForDistance(
                    Distance { value_bytes, unit, distance_override },
                ),
            ),
            _ => Err(ParseError::MissingArgs(c)),
        },
        Command::PrepareDistanceMessage => match (distance, unit, maneuver) {
            (Some(value_bytes), Some(unit), Some(maneuver)) => Ok(
                Guidance::PrepareDistanceMessage(
                    Distance { value_bytes, unit, distance_override },
                    Box::new(maneuver),
                ),
            ),
            _ => Err(ParseError::MissingArgs(c)),
        },
        Command::CombineMergedGuidanceEvents => match (first, second) {
            (Some(first), Some(second)) => Ok(
                Guidance::CombineMergedGuidanceEvents(Box::new(first), Box::new(second)),
            ),
            _ => Err(ParseError::MissingArgs(c)),
        },
    }
}

/// The command that `value` names, if any.
pub fn command_named(value: &String) -> (r: Option<Command>)
    ensures
        r == command_of(value@),
{
    if text_is(value, "pf_straightstep") {
        Some(Command::StraightStep)
    } else if text_is(value, "pf_turnstep") {
        Some(Command::TurnStep)
    } else if text_is(value, "pf_uturnstep") {
        Some(Command::UTurnStep)
    } else if text_is(value, "pf_onrampstep") {
        Some(Command::OnRampStep)
    } else if text_is(value, "pf_offrampstep") {
        Some(Command::OffRampStep)
    } else if text_is(value, "pf_keeporforkstep") {
        Some(Command::KeepOrForkStep)
    } else if text_is(value, "pf_mergestep") {
        Some(Command::MergeStep)
    } else if text_is(value, "pf_interchangestep") {
        Some(Command::InterchangeStep)
    } else if text_is(value, "pf_destinationstep_prepare") {
        Some(Command::DestinationStepPrepare)
    } else if text_is(value, "pf_destinationstep_act") {
        Some(Command::DestinationStepAct)
    } else if text_is(value, "continue_for_distance") {
        Some(Command::ContinueForDistance)
    } else if text_is(value, "prepare_distance_message") {
        Some(Command::PrepareDistanceMessage)
    } else if text_is(value, "combine_merged_guidance_events") {
        Some(Command::CombineMergedGuidanceEvents)
    } else {
        None
    }
}

/// The guidance that `command` with `args` stands for.
pub fn map_guidance(command: PF4Enum, args: Vec<Value>) -> (r: Result<Guidance, ParseError>)
    ensures
        result_view(r) == spec_map_guidance(command@, values_model(args@)),
{
    if !text_is(&command.enum_type, "pathfinder4") {
        return Err(ParseError::UnknownCommandType(command.enum_type));
    }
    let c = match command_named(&command.value) {
        Some(c) => c,
        None => return Err(ParseError::UnknownCommandValue(command.value)),
    };
    let ghost model = values_model(args@);
    proof {
        lemma_values_model(args@);
    }
    if c == Command::DestinationStepAct && args.len() > 0 {
        return Err(ParseError::UnexpectedArgs(args));
    }
    let slots = match collect_args(c, args) {
        Ok(s) => s,
        Err(e) => return Err(e),
    };
    build_from_slots(c, slots, Ghost(model))
}

// ---------------------------------------------------------------------------
// Key-value pairs
// ---------------------------------------------------------------------------

/// The key that text `k` names.
pub open spec fn key_of(k: Seq<char>) -> Option<KeyName> {
    if k == "distance"@ {
        Some(KeyName::Distance)
    } else if k == "distance_unit"@ {
        Some(KeyName::DistanceUnit)
    } else if k == "distance_override_type"@ {
        Some(KeyName::DistanceOverrideType)
    } else if k == "turn_sharpness"@ {
        Some(KeyName::TurnSharpness)
    } else if k == "turn_side"@ {
        Some(KeyName::TurnSide)
    } else if k == "keep_side"@ {
        Some(KeyName::KeepSide)
    } else if k == "destination_side"@ {
        Some(KeyName::DestinationSide)
    } else if k == "lane_guidance_type"@ {
        Some(KeyName::LaneGuidanceType)
    } else if k == "traffic_light"@ {
        Some(KeyName::TrafficLight)
    } else if k == "stop_sign"@ {
        Some(KeyName::StopSign)
    } else if k == "exit_name"@ {
        Some(KeyName::ExitName)
    } else if k == "exits"@ {
        Some(KeyName::Exits)
    } else if k == "maneuver"@ {
        Some(KeyName::Maneuver)
    } else if k == "key"@ {
        Some(KeyName::Key)
    } else if k == "args"@ {
        Some(KeyName::Args)
    } else if k == "first_step"@ {
        Some(KeyName::FirstStep)
    } else if k == "second_step"@ {
        Some(KeyName::SecondStep)
    } else if k == "sign_direct_name"@ {
        Some(KeyName::SignDirectName)
    } else if k == "sign_indirect_name"@ {
        Some(KeyName::SignIndirectName)
    } else if k == "routes"@ {
        Some(KeyName::Routes)
    } else if k == "intersection_name"@ {
        Some(KeyName::IntersectionName)
    } else if k == "interchange_name"@ {
        Some(KeyName::InterchangeName)
    } else {
        None
    }
}

pub open spec fn unit_of(s: Seq<char>) -> Option<DistanceUnit> {
    if s == "UNIT_METERS"@ {
        Some(DistanceUnit::Meter)
    } else if s == "UNIT_KILOMETERS"@ {
        Some(DistanceUnit::Kilometer)
    } else if s == "UNIT_MILES"@ {
        Some(DistanceUnit::Mile)
    } else {
        None
    }
}

pub open spec fn sharpness_of(s: Seq<char>) -> Option<TurnSharpness> {
    if s == "SLIGHT"@ {
        Some(TurnSharpness::Slight)
    } else if s == "NORMAL"@ {
        Some(TurnSharpness::Normal)
    } else if s == "SHARP"@ {
        Some(TurnSharpness::Sharp)
    } else {
        None
    }
}

/// `Some(true)` for `LEFT`, `Some(false)` for `RIGHT`.
pub open spec fn left_of(s: Seq<char>) -> Option<bool> {
    if s == "LEFT"@ {
        Some(true)
    } else if s == "RIGHT"@ {
        Some(false)
    } else {
        None
    }
}

pub open spec fn lane_of(s: Seq<char>) -> Option<LaneGuidance> {
    if s == "USE_LEFT_LANE"@ {
        Some(LaneGuidance::LeftLane)
    } else if s == "USE_LEFT_2_LANES"@ {
        Some(LaneGuidance::Left2Lanes)
    } else if s == "USE_RIGHT_LANE"@ {
        Some(LaneGuidance::RightLane)
    } else if s == "USE_RIGHT_2_LANES"@ {
        Some(LaneGuidance::Right2Lanes)
    } else if s == "USE_SECOND_FROM_RIGHT"@ {
        Some(LaneGuidance::SecondFromRight)
    } else if s == "USE_MIDDLE_LANE"@ {
        Some(LaneGuidance::MiddleLane)
    } else if s == "USE_ANY_LANE"@ {
        Some(LaneGuidance::AnyLane)
    } else {
        None
    }
}

/// The value of a symbol under one of the symbol keys.
pub open spec fn symbol_value(name: KeyName, s: Seq<char>) -> Option<SpecValue> {
    match name {
        KeyName::TurnSharpness => match sharpness_of(s) {
            Some(x) => Some(SpecValue::TurnSharpness(x)),
            None => None,
        },
        KeyName::TurnSide => match left_of(s) {
            Some(l) => Some(SpecValue::TurnSide(if l { TurnSide::Left } else { TurnSide::Right })),
            None => None,
        },
        KeyName::KeepSide => match left_of(s) {
            Some(l) => Some(SpecValue::KeepSide(if l { KeepSide::Left } else { KeepSide::Right })),
            None => None,
        },
        KeyName::DestinationSide => match left_of(s) {
            Some(l) => Some(
                SpecValue::DestinationSide(
                    if l {
                        DestinationSide::Left
                    } else {
                        DestinationSide::Right
                    },
                ),
            ),
            None => None,
        },
        _ => match lane_of(s) {
            Some(x) => Some(SpecValue::LaneGuidance(x)),
            None => None,
        },
    }
}

/// The key of an interchange name reports an unknown item under the name of the
/// intersection name key.
pub open spec fn unknown_item_key(name: KeyName) -> KeyName {
    if name == KeyName::InterchangeName {
        KeyName::IntersectionName
    } else {
        name
    }
}

/// Whether `v` is a list of exits (`exits`) or of routes (not `exits`).
pub open spec fn is_name_list(v: SpecValue, exits: bool) -> bool {
    if exits {
        v is Exits
    } else {
        v is Routes
    }
}

/// The error of a list that should hold exactly one list of names and does
/// not: none at all, or the first item that is not the one expected list.
pub open spec fn single_item_error(name: KeyName, vs: Seq<SpecValue>, exits: bool) -> SpecParseError {
    if vs.len() == 0 {
        SpecParseError::MissingItems(name)
    } else if is_name_list(vs[0], exits) {
        SpecParseError::UnknownItem(unknown_item_key(name), vs[1])
    } else {
        SpecParseError::UnknownItem(unknown_item_key(name), vs[0])
    }
}

/// The names of the only item of `vs`, if `vs` holds exactly one list of exits.
pub open spec fn only_exits(vs: Seq<SpecValue>) -> Option<Seq<Seq<char>>> {
    if vs.len() == 1 && vs[0] is Exits {
        Some(vs[0]->Exits_0)
    } else {
        None
    }
}

/// The names of the only item of `vs`, if `vs` holds exactly one list of routes.
pub open spec fn only_routes(vs: Seq<SpecValue>) -> Option<Seq<Seq<char>>> {
    if vs.len() == 1 && vs[0] is Routes {
        Some(vs[0]->Routes_0)
    } else {
        None
    }
}

pub open spec fn all_text_data(vs: Seq<SpecValue>) -> bool {
    forall|i: int| 0 <= i < vs.len() ==> (#[trigger] vs[i]) is NLGData
}

/// The first of `vs` that is not text data, if any.
pub open spec fn first_non_text(vs: Seq<SpecValue>) -> Option<SpecValue>
    decreases vs.len(),
{
    if vs.len() == 0 {
        None
    } else if !(vs[0] is NLGData) {
        Some(vs[0])
    } else {
        first_non_text(vs.drop_first())
    }
}

/// After a prefix of text data, the first item that is not text data is that of
/// the rest; there is none exactly when all items are text data.
pub proof fn lemma_first_non_text(vs: Seq<SpecValue>, k: int)
    requires
        0 <= k <= vs.len(),
        all_text_data(vs.take(k)),
    ensures
        first_non_text(vs) == first_non_text(vs.skip(k)),
        first_non_text(vs) is None <==> all_text_data(vs),
    decreases vs.len(),
{
    if vs.len() > 0 {
        let rest = vs.drop_first();
        if k > 0 {
            assert(vs.take(k)[0] == vs[0]);
            assert(all_text_data(rest.take(k - 1))) by {
                assert forall|i: int| 0 <= i < k - 1 implies (#[trigger] rest.take(k - 1)[i]) is NLGData by {
                    assert(rest.take(k - 1)[i] == vs.take(k)[i + 1]);
                }
            }
            lemma_first_non_text(rest, k - 1);
            assert(rest.skip(k - 1) =~= vs.skip(k));
        } else {
            assert(vs.skip(0) =~= vs);
            assert(all_text_data(rest.take(0)));
            lemma_first_non_text(rest, 0);
        }
        if all_text_data(vs) {
            assert(all_text_data(rest)) by {
                assert forall|i: int| 0 <= i < rest.len() implies (#[trigger] rest[i]) is NLGData by {
                    assert(rest[i] == vs[i + 1]);
                }
            }
        }
        if vs[0] is NLGData && all_text_data(rest) {
            assert forall|i: int| 0 <= i < vs.len() implies (#[trigger] vs[i]) is NLGData by {
                if i > 0 {
                    assert(vs[i] == rest[i - 1]);
                }
            }
        }
    } else {
        assert(vs.skip(k) =~= vs);
    }
}

pub open spec fn text_data(vs: Seq<SpecValue>) -> Seq<Seq<char>> {
    vs.map_values(|v: SpecValue| v->NLGData_0)
}

/// The command and arguments of a step: exactly a key followed by its arguments.
pub open spec fn step_parts(vs: Seq<SpecValue>) -> Option<(SpecEnum, Seq<SpecValue>)> {
    if vs.len() == 2 && vs[0] is Key && vs[1] is Args {
        Some((vs[0]->Key_0, vs[1]->Args_0))
    } else {
        None
    }
}

/// The guidance of a step, or the error that refuses it.
pub open spec fn step_guidance(name: KeyName, vs: Seq<SpecValue>) -> Result<SpecGuidance, SpecParseError> {
    if vs.len() != 2 {
        Err(SpecParseError::UnknownStep(name, vs))
    } else {
        match step_parts(vs) {
            Some((c, a)) => spec_map_guidance(c, a),
            None => Err(SpecParseError::UnknownStepParts(name, vs[0], vs[1])),
        }
    }
}

pub const NAME_SEPARATOR: &'static str = "・";

/// The value of a pair whose key is the known key `name` (its text `k`).
pub open spec fn map_keyed(name: KeyName, k: Seq<char>, raw: SpecRawValue) -> Result<SpecValue, SpecParseError> {
    let unknown = Err(SpecParseError::UnknownKeyValue(k, raw));
    match (name, raw) {
        (KeyName::Distance, SpecRawValue::FloatValue(b)) => Ok(SpecValue::Distance(b)),
        (KeyName::DistanceUnit, SpecRawValue::EnumValue(e)) => if e.enum_type
            == "nlp_generation.UnitType"@ {
            match unit_of(e.value) {
                Some(u) => Ok(SpecValue::DistanceUnit(u)),
                None => Err(SpecParseError::UnexpectedSymbol(name, e.value)),
            }
        } else {
            unknown
        },
        (KeyName::DistanceOverrideType, SpecRawValue::SymbolValue(s)) => Ok(
            SpecValue::DistanceOverride(s),
        ),
        (KeyName::TurnSharpness, SpecRawValue::SymbolValue(s))
        | (KeyName::TurnSide, SpecRawValue::SymbolValue(s))
        | (KeyName::KeepSide, SpecRawValue::SymbolValue(s))
        | (KeyName::DestinationSide, SpecRawValue::SymbolValue(s))
        | (KeyName::LaneGuidanceType, SpecRawValue::SymbolValue(s)) => match symbol_value(name, s) {
            Some(v) => Ok(v),
            None => Err(SpecParseError::UnexpectedSymbol(name, s)),
        },
        (KeyName::TrafficLight, SpecRawValue::IntValue(i)) => Ok(
            SpecValue::TrafficLight(TrafficLight { index: i }),
        ),
        (KeyName::StopSign, SpecRawValue::IntValue(i)) => Ok(
            SpecValue::StopSign(StopSign { index: i }),
        ),
        (KeyName::ExitName, SpecRawValue::KeyValueArray(vs)) => match only_exits(vs) {
            Some(t) => Ok(SpecValue::ExitName(join(t, NAME_SEPARATOR@))),
            None => Err(single_item_error(name, vs, true)),
        },
        (KeyName::InterchangeName, SpecRawValue::KeyValueArray(vs)) => match only_exits(vs) {
            Some(t) => Ok(SpecValue::InterchangeName(join(t, NAME_SEPARATOR@))),
            None => Err(single_item_error(name, vs, true)),
        },
        (KeyName::SignDirectName, SpecRawValue::KeyValueArray(vs)) => match only_routes(vs) {
            Some(t) => Ok(SpecValue::SignDirectName(join(t, NAME_SEPARATOR@))),
            None => Err(single_item_error(name, vs, false)),
        },
        (KeyName::SignIndirectName, SpecRawValue::KeyValueArray(vs)) => match only_routes(vs) {
            Some(t) => Ok(SpecValue::SignIndirectName(join(t, NAME_SEPARATOR@))),
            None => Err(single_item_error(name, vs, false)),
        },
        (KeyName::IntersectionName, SpecRawValue::KeyValueArray(vs)) => match only_routes(vs) {
            Some(t) => Ok(SpecValue::IntersectionName(join(t, NAME_SEPARATOR@))),
            None => Err(single_item_error(name, vs, false)),
        },
        (KeyName::Exits, SpecRawValue::KeyValueArray(vs)) => match first_non_text(vs) {
            None => Ok(SpecValue::Exits(text_data(vs))),
            Some(v) => Err(SpecParseError::UnknownItem(name, v)),
        },
        (KeyName::Routes, SpecRawValue::KeyValueArray(vs)) => match first_non_text(vs) {
            None => Ok(SpecValue::Routes(text_data(vs))),
            Some(v) => Err(SpecParseError::UnknownItem(name, v)),
        },
        (KeyName::Maneuver, SpecRawValue::KeyValueArray(vs)) => match step_guidance(name, vs) {
            Ok(g) => Ok(SpecValue::Maneuver(g)),
            Err(e) => Err(e),
        },
        (KeyName::FirstStep, SpecRawValue::KeyValueArray(vs)) => match step_guidance(name, vs) {
            Ok(g) => Ok(SpecValue::FirstStep(g)),
            Err(e) => Err(e),
        },
        (KeyName::SecondStep, SpecRawValue::KeyValueArray(vs)) => match step_guidance(name, vs) {
            Ok(g) => Ok(SpecValue::SecondStep(g)),
            Err(e) => Err(e),
        },
        (KeyName::Key, SpecRawValue::CommandValue(c)) => Ok(SpecValue::Key(c)),
        (KeyName::Args, SpecRawValue::KeyValueArray(vs)) => Ok(SpecValue::Args(vs)),
        _ => unknown,
    }
}

/// The value of a key-value pair: a known key with a value of the kind it takes,
/// or, without a key, text data.
pub open spec fn spec_map_value(key: Option<Seq<char>>, raw: SpecRawValue) -> Result<SpecValue, SpecParseError> {
    match key {
        None => match raw {
            SpecRawValue::NLGData(d) => Ok(SpecValue::NLGData(d.text)),
            _ => Err(SpecParseError::MissingKey),
        },
        Some(k) => match key_of(k) {
            Some(name) => map_keyed(name, k, raw),
            None => Err(SpecParseError::UnknownKeyValue(k, raw)),
        },
    }
}

impl View for PF4RawValue {
    type V = SpecRawValue;

    open spec fn view(&self) -> SpecRawValue {
        match self {
            PF4RawValue::IntValue(i) => SpecRawValue::IntValue(*i),
            PF4RawValue::SymbolValue(s) => SpecRawValue::SymbolValue(s@),
            PF4RawValue::FloatValue(b) => SpecRawValue::FloatValue(*b),
            PF4RawValue::EnumValue(e) => SpecRawValue::EnumValue(e@),
            PF4RawValue::CommandValue(e) => SpecRawValue::CommandValue(e@),
            PF4RawValue::NLGData(d) => SpecRawValue::NLGData(d@),
            PF4RawValue::KeyValueArray(vs) => SpecRawValue::KeyValueArray(values_model(vs@)),
        }
    }
}

/// The key that `k` names, if any.
pub fn key_named(k: &String) -> (r: Option<KeyName>)
    ensures
        r == key_of(k@),
{
    if text_is(k, "distance") {
        Some(KeyName::Distance)
    } else if text_is(k, "distance_unit") {
        Some(KeyName::DistanceUnit)
    } else if text_is(k, "distance_override_type") {
        Some(KeyName::DistanceOverrideType)
    } else if text_is(k, "turn_sharpness") {
        Some(KeyName::TurnSharpness)
    } else if text_is(k, "turn_side") {
        Some(KeyName::TurnSide)
    } else if text_is(k, "keep_side") {
        Some(KeyName::KeepSide)
    } else if text_is(k, "destination_side") {
        Some(KeyName::DestinationSide)
    } else if text_is(k, "lane_guidance_type") {
        Some(KeyName::LaneGuidanceType)
    } else if text_is(k, "traffic_light") {
        Some(KeyName::TrafficLight)
    } else if text_is(k, "stop_sign") {
        Some(KeyName::StopSign)
    } else if text_is(k, "exit_name") {
        Some(KeyName::ExitName)
    } else if text_is(k, "exits") {
        Some(KeyName::Exits)
    } else if text_is(k, "maneuver") {
        Some(KeyName::Maneuver)
    } else if text_is(k, "key") {
        Some(KeyName::Key)
    } else if text_is(k, "args") {
        Some(KeyName::Args)
    } else if text_is(k, "first_step") {
        Some(KeyName::FirstStep)
    } else if text_is(k, "second_step") {
        Some(KeyName::SecondStep)
    } else if text_is(k, "sign_direct_name") {
        Some(KeyName::SignDirectName)
    } else if text_is(k, "sign_indirect_name") {
        Some(KeyName::SignIndirectName)
    } else if text_is(k, "routes") {
        Some(KeyName::Routes)
    } else if text_is(k, "intersection_name") {
        Some(KeyName::IntersectionName)
    } else if text_is(k, "interchange_name") {
        Some(KeyName::InterchangeName)
    } else {
        None
    }
}

fn unit_named(s: &String) -> (r: Option<DistanceUnit>)
    ensures
        r == unit_of(s@),
{
    if text_is(s, "UNIT_METERS") {
        Some(DistanceUnit::Meter)
    } else if text_is(s, "UNIT_KILOMETERS") {
        Some(DistanceUnit::Kilometer)
    } else if text_is(s, "UNIT_MILES") {
        Some(DistanceUnit::Mile)
    } else {
        None
    }
}

fn symbol_named(name: KeyName, s: &String) -> (r: Option<Value>)
    ensures
        match r {
            Some(v) => symbol_value(name, s@) == Some(v@),
            None => symbol_value(name, s@) is None,
        },
{
    match name {
        KeyName::TurnSharpness => if text_is(s, "SLIGHT") {
            Some(Value::TurnSharpness(TurnSharpness::Slight))
        } else if text_is(s, "NORMAL") {
            Some(Value::TurnSharpness(TurnSharpness::Normal))
        } else if text_is(s, "SHARP") {
            Some(Value::TurnSharpness(TurnSharpness::Sharp))
        } else {
            None
        },
        KeyName::TurnSide => if text_is(s, "LEFT") {
            Some(Value::TurnSide(TurnSide::Left))
        } else if text_is(s, "RIGHT") {
            Some(Value::TurnSide(TurnSide::Right))
        } else {
            None
        },
        KeyName::KeepSide => if text_is(s, "LEFT") {
            Some(Value::KeepSide(KeepSide::Left))
        } else if text_is(s, "RIGHT") {
            Some(Value::KeepSide(KeepSide::Right))
        } else {
            None
        },
        KeyName::DestinationSide => if text_is(s, "LEFT") {
            Some(Value::DestinationSide(DestinationSide::Left))
        } else if text_is(s, "RIGHT") {
            Some(Value::DestinationSide(DestinationSide::Right))
        } else {
            None
        },
        _ => if text_is(s, "USE_LEFT_LANE") {
            Some(Value::LaneGuidance(LaneGuidance::LeftLane))
        } else if text_is(s, "USE_LEFT_2_LANES") {
            Some(Value::LaneGuidance(LaneGuidance::Left2Lanes))
        } else if text_is(s, "USE_RIGHT_LANE") {
            Some(Value::LaneGuidance(LaneGuidance::RightLane))
        } else if text_is(s, "USE_RIGHT_2_LANES") {
            Some(Value::LaneGuidance(LaneGuidance::Right2Lanes))
        } else if text_is(s, "USE_SECOND_FROM_RIGHT") {
            Some(Value::LaneGuidance(LaneGuidance::SecondFromRight))
        } else if text_is(s, "USE_MIDDLE_LANE") {
            Some(Value::LaneGuidance(LaneGuidance::MiddleLane))
        } else if text_is(s, "USE_ANY_LANE") {
            Some(Value::LaneGuidance(LaneGuidance::AnyLane))
        } else {
            None
        },
    }
}

/// The texts of `names`, joined with the name separator.
pub fn join_names(names: &Vec<NLGData>) -> (r: String)
    ensures
        r@ == join(nlg_texts(names@), NAME_SEPARATOR@),
{
    let mut out = String::new();
    let n = names.len();
    let mut i: usize = 0;
    while i < n
        invariant
            n == names@.len(),
            i <= n,
            out@ == join(nlg_texts(names@.take(i as int)), NAME_SEPARATOR@),
        decreases n - i,
    {
        proof {
            assert(nlg_texts(names@.take(i + 1)).drop_last() =~= nlg_texts(names@.take(i as int)));
        }
        if i > 0 {
            out.append(NAME_SEPARATOR);
        }
        out.append(names[i].text.as_str());
        i += 1;
        proof {
            let cur = nlg_texts(names@.take(i as int));
            assert(cur.last() == names@[i - 1].text@);
            if i == 1 {
                assert(out@ =~= cur[0]);
            }
        }
    }
    assert(names@.take(n as int) =~= names@);
    out
}

/// The text data items of `values`, refusing any other item.
fn text_data_items(values: Vec<Value>, name: KeyName) -> (r: Result<Vec<NLGData>, ParseError>)
    ensures
        match r {
            Ok(ns) => first_non_text(values_model(values@)) is None && nlg_texts(ns@) == text_data(
                values_model(values@),
            ),
            Err(e) => first_non_text(values_model(values@)) matches Some(v) && e@
                == SpecParseError::UnknownItem(name, v),
        },
{
    let ghost orig = values@;
    let ghost model = values_model(orig);
    proof {
        lemma_values_model(orig);
    }
    let n = values.len();
    let mut rest = values;
    let mut out: Vec<NLGData> = Vec::new();
    let mut k: usize = 0;
    assert(orig.skip(0) =~= orig);
    while k < n
        invariant
            n == orig.len(),
            orig == values@,
            model == values_model(orig),
            model.len() == orig.len(),
            forall|i: int| 0 <= i < orig.len() ==> #[trigger] model[i] == orig[i]@,
            k <= n,
            rest@ == orig.skip(k as int),
            all_text_data(model.take(k as int)),
            nlg_texts(out@) == text_data(model.take(k as int)),
        decreases n - k,
    {
        let item = rest.remove(0);
        assert(item == orig[k as int]);
        assert(orig.skip(k as int).remove(0) =~= orig.skip(k + 1));
        let ghost prev = out@;
        match item {
            Value::NLGData(d) => {
                out.push(d);
            },
            other => {
                proof {
                    lemma_first_non_text(model, k as int);
                    assert(model.skip(k as int)[0] == model[k as int]);
                }
                return Err(ParseError::UnknownItem(name, other));
            },
        }
        k += 1;
        assert(all_text_data(model.take(k as int))) by {
            assert forall|i: int| 0 <= i < k implies (#[trigger] model.take(k as int)[i]) is NLGData by {
                if i < k - 1 {
                    assert(model.take(k as int)[i] == model.take(k - 1)[i]);
                }
            }
        }
        proof {
            let a = nlg_texts(out@);
            let b = text_data(model.take(k as int));
            assert(nlg_texts(prev) == text_data(model.take(k - 1)));
            assert(nlg_texts(prev).len() == prev.len());
            assert(text_data(model.take(k - 1)).len() == k - 1);
            assert(out@.len() == prev.len() + 1);
            assert(a.len() == b.len());
            assert forall|i: int| 0 <= i < a.len() implies a[i] == b[i] by {
                if i < k - 1 {
                    assert(out@[i] == prev[i]);
                    assert(nlg_texts(prev)[i] == text_data(model.take(k - 1))[i]);
                    assert(model.take(k as int)[i] == model.take(k - 1)[i]);
                }
            }
            assert(a =~= b);
        }
    }
    assert(model.take(n as int) =~= model);
    proof {
        lemma_first_non_text(model, 0);
        assert(model.take(0) =~= Seq::<SpecValue>::empty());
    }
    Ok(out)
}

/// The joined names of the only item of `values`, which must be a list of exits
/// (`exits` true) or of routes (`exits` false).
fn single_names(values: Vec<Value>, name: KeyName, exits: bool) -> (r: Result<String, ParseError>)
    ensures
        ({
            let vs = values_model(values@);
            let only = if exits {
                only_exits(vs)
            } else {
                only_routes(vs)
            };
            match only {
                Some(t) => r matches Ok(s) && s@ == join(t, NAME_SEPARATOR@),
                None => r matches Err(e) && e@ == single_item_error(name, vs, exits),
            }
        }),
{
    let ghost vs = values_model(values@);
    proof {
        lemma_values_model(values@);
    }
    let n = values.len();
    if n == 0 {
        return Err(ParseError::MissingItems(name));
    }
    let report_key = if name == KeyName::InterchangeName {
        KeyName::IntersectionName
    } else {
        name
    };
    let mut values = values;
    let first = values.remove(0);
    assert(first@ == vs[0]);
    let expected = match &first {
        Value::Exits(_) => exits,
        Value::Routes(_) => !exits,
        _ => false,
    };
    if !expected {
        return Err(ParseError::UnknownItem(report_key, first));
    }
    if n == 1 {
        match first {
            Value::Exits(e) => Ok(join_names(&e.names)),
            Value::Routes(r) => Ok(join_names(&r.names)),
            other => Err(ParseError::UnknownItem(report_key, other)),
        }
    } else {
        let second = values.remove(0);
        assert(second@ == vs[1]);
        Err(ParseError::UnknownItem(report_key, second))
    }
}

/// The guidance of a step: a command key followed by its arguments.
fn step_of(values: Vec<Value>, name: KeyName) -> (r: Result<Guidance, ParseError>)
    ensures
        result_view(r) == step_guidance(name, values_model(values@)),
{
    let ghost vs = values_model(values@);
    proof {
        lemma_values_model(values@);
    }
    if values.len() != 2 {
        return Err(ParseError::UnknownStep(name, values));
    }
    let mut values = values;
    let second = values.pop().unwrap();
    let first = values.pop().unwrap();
    assert(first@ == vs[0] && second@ == vs[1]);
    match (first, second) {
        (Value::Key(command), Value::Args(args)) => map_guidance(command, args),
        (a, b) => Err(ParseError::UnknownStepParts(name, a, b)),
    }
}

fn map_keyed_value(name: KeyName, k: String, value: PF4RawValue) -> (r: Result<Value, ParseError>)
    ensures
        result_view(r) == map_keyed(name, k@, value@),
{
    match (name, value) {
        (KeyName::Distance, PF4RawValue::FloatValue(b)) => Ok(Value::Distance(b)),
        (KeyName::DistanceUnit, PF4RawValue::EnumValue(e)) => {
            if text_is(&e.enum_type, "nlp_generation.UnitType") {
                match unit_named(&e.value) {
                    Some(u) => Ok(Value::DistanceUnit(u)),
                    None => Err(ParseError::UnexpectedSymbol(name, e.value)),
                }
            } else {
                Err(ParseError::UnknownKeyValue(k, PF4RawValue::EnumValue(e)))
            }
        },
        (KeyName::DistanceOverrideType, PF4RawValue::SymbolValue(s)) => Ok(
            Value::DistanceOverride(s),
        ),
        (KeyName::TurnSharpness, PF4RawValue::SymbolValue(s))
        | (KeyName::TurnSide, PF4RawValue::SymbolValue(s))
        | (KeyName::KeepSide, PF4RawValue::SymbolValue(s))
        | (KeyName::DestinationSide, PF4RawValue::SymbolValue(s))
        | (KeyName::LaneGuidanceType, PF4RawValue::SymbolValue(s)) => match symbol_named(name, &s) {
            Some(v) => Ok(v),
            None => Err(ParseError::UnexpectedSymbol(name, s)),
        },
        (KeyName::TrafficLight, PF4RawValue::IntValue(i)) => Ok(
            Value::TrafficLight(TrafficLight { index: i }),
        ),
        (KeyName::StopSign, PF4RawValue::IntValue(i)) => Ok(Value::StopSign(StopSign { index: i })),
        (KeyName::ExitName, PF4RawValue::KeyValueArray(vs)) => match single_names(vs, name, true) {
            Ok(n) => Ok(Value::ExitName(ExitName { name: n })),
            Err(e) => Err(e),
        },
        (KeyName::InterchangeName, PF4RawValue::KeyValueArray(vs)) => match single_names(
            vs,
            name,
            true,
        ) {
            Ok(n) => Ok(Value::InterchangeName(InterchangeName { name: n })),
            Err(e) => Err(e),
        },
        (KeyName::SignDirectName, PF4RawValue::KeyValueArray(vs)) => match single_names(
            vs,
            name,
            false,
        ) {
            Ok(n) => Ok(Value::SignDirectName(n)),
            Err(e) => Err(e),
        },
        (KeyName::SignIndirectName, PF4RawValue::KeyValueArray(vs)) => match single_names(
            vs,
            name,
            false,
        ) {
            Ok(n) => Ok(Value::SignIndirectName(n)),
            Err(e) => Err(e),
        },
        (KeyName::IntersectionName, PF4RawValue::KeyValueArray(vs)) => match single_names(
            vs,
            name,
            false,
        ) {
            Ok(n) => Ok(Value::IntersectionName(n)),
            Err(e) => Err(e),
        },
        (KeyName::Exits, PF4RawValue::KeyValueArray(vs)) => match text_data_items(vs, name) {
            Ok(names) => Ok(Value::Exits(Exits { names })),
            Err(e) => Err(e),
        },
        (KeyName::Routes, PF4RawValue::KeyValueArray(vs)) => match text_data_items(vs, name) {
            Ok(names) => Ok(Value::Routes(Routes { names })),
            Err(e) => Err(e),
        },
        (KeyName::Maneuver, PF4RawValue::KeyValueArray(vs)) => match step_of(vs, name) {
            Ok(g) => Ok(Value::Maneuver(g)),
            Err(e) => Err(e),
        },
        (KeyName::FirstStep, PF4RawValue::KeyValueArray(vs)) => match step_of(vs, name) {
            Ok(g) => Ok(Value::FirstStep(g)),
            Err(e) => Err(e),
        },
        (KeyName::SecondStep, PF4RawValue::KeyValueArray(vs)) => match step_of(vs, name) {
            Ok(g) => Ok(Value::SecondStep(g)),
            Err(e) => Err(e),
        },
        (KeyName::Key, PF4RawValue::CommandValue(c)) => Ok(Value::Key(c)),
        (KeyName::Args, PF4RawValue::KeyValueArray(vs)) => Ok(Value::Args(vs)),
        (_, other) => Err(ParseError::UnknownKeyValue(k, other)),
    }
}

/// The value of a key-value pair with optional `key` and raw `value`.
pub fn map_value(key: Option<String>, value: PF4RawValue) -> (r: Result<Value, ParseError>)
    ensures
        result_view(r) == spec_map_value(opt_text(key), value@),
{
    match key {
        None => match value {
            PF4RawValue::NLGData(d) => Ok(Value::NLGData(NLGData { text: d.text })),
            _ => Err(ParseError::MissingKey),
        },
        Some(k) => match key_named(&k) {
            Some(name) => map_keyed_value(name, k, value),
            None => Err(ParseError::UnknownKeyValue(k, value)),
        },
    }
}

// ---------------------------------------------------------------------------
// The encoding: messages read field by field
// ---------------------------------------------------------------------------

/// A text field: its bytes must be UTF-8.
pub open spec fn spec_parse_string(b: Seq<u8>) -> Result<Seq<char>, SpecParseError> {
    if valid_utf8(b) {
        Ok(decode_utf8(b))
    } else {
        Err(SpecParseError::InvalidUtf8(utf8_error_text(b)))
    }
}

/// The text of a string field: its bytes decoded as UTF-8.
pub fn parse_string(bytes: &[u8]) -> (r: Result<String, ParseError>)
    ensures
        result_view(r) == spec_parse_string(bytes@),
{
    match utf8_text(bytes) {
        Ok(s) => Ok(s),
        Err(e) => Err(ParseError::InvalidUtf8(e)),
    }
}

/// A `PF4Enum` from the fields from index `i` on, `t` and `v` being the type
/// and value read so far: field 1 (type) and field 2 (value), each at most once.
pub open spec fn enum_walk(
    fs: Seq<SpecWireField>,
    i: nat,
    t: Option<Seq<char>>,
    v: Option<Seq<char>>,
) -> Result<SpecEnum, SpecParseError>
    decreases fs.len() - i,
{
    if i >= fs.len() {
        match (t, v) {
            (Some(t), Some(v)) => Ok(SpecEnum { enum_type: t, value: v }),
            _ => Err(SpecParseError::MissingField(MessageKind::PF4Enum)),
        }
    } else {
        let f = fs[i as int];
        if f.field_number == 1 && f.value is Len && t is None {
            match spec_parse_string(f.value->Len_0) {
                Ok(s) => enum_walk(fs, i + 1, Some(s), v),
                Err(e) => Err(e),
            }
        } else if f.field_number == 2 && f.value is Len && v is None {
            match spec_parse_string(f.value->Len_0) {
                Ok(s) => enum_walk(fs, i + 1, t, Some(s)),
                Err(e) => Err(e),
            }
        } else {
            Err(SpecParseError::UnexpectedField(MessageKind::PF4Enum, f.field_number))
        }
    }
}

pub open spec fn spec_parse_enum(bytes: Seq<u8>) -> Result<SpecEnum, SpecParseError> {
    match protobuf_fields(bytes) {
        Ok(fs) => enum_walk(fs, 0, None, None),
        Err(e) => Err(SpecParseError::Wire(e)),
    }
}

/// A `PF4NLGData` from the fields from index `i` on: field 1 (id, optional) and
/// field 2 (text, required), each at most once.
pub open spec fn nlg_walk(
    fs: Seq<SpecWireField>,
    i: nat,
    id: Option<Seq<char>>,
    text: Option<Seq<char>>,
) -> Result<SpecNLGData, SpecParseError>
    decreases fs.len() - i,
{
    if i >= fs.len() {
        match text {
            Some(text) => Ok(SpecNLGData { id, text }),
            None => Err(SpecParseError::MissingField(MessageKind::PF4NLGData)),
        }
    } else {
        let f = fs[i as int];
        if f.field_number == 1 && f.value is Len && id is None {
            match spec_parse_string(f.value->Len_0) {
                Ok(s) => nlg_walk(fs, i + 1, Some(s), text),
                Err(e) => Err(e),
            }
        } else if f.field_number == 2 && f.value is Len && text is None {
            match spec_parse_string(f.value->Len_0) {
                Ok(s) => nlg_walk(fs, i + 1, id, Some(s)),
                Err(e) => Err(e),
            }
        } else {
            Err(SpecParseError::UnexpectedField(MessageKind::PF4NLGData, f.field_number))
        }
    }
}

pub open spec fn spec_parse_nlg_data(bytes: Seq<u8>) -> Result<SpecNLGData, SpecParseError> {
    match protobuf_fields(bytes) {
        Ok(fs) => nlg_walk(fs, 0, None, None),
        Err(e) => Err(SpecParseError::Wire(e)),
    }
}

/// A `PF4Command` from the fields from index `i` on: field 3 (the enum),
/// required, at most once.
pub open spec fn command_walk(fs: Seq<SpecWireField>, i: nat, c: Option<SpecEnum>) -> Result<SpecEnum, SpecParseError>
    decreases fs.len() - i,
{
    if i >= fs.len() {
        match c {
            Some(c) => Ok(c),
            None => Err(SpecParseError::MissingField(MessageKind::PF4Command)),
        }
    } else {
        let f = fs[i as int];
        if f.field_number == 3 && f.value is Len && c is None {
            match spec_parse_enum(f.value->Len_0) {
                Ok(e) => command_walk(fs, i + 1, Some(e)),
                Err(e) => Err(e),
            }
        } else {
            Err(SpecParseError::UnexpectedField(MessageKind::PF4Command, f.field_number))
        }
    }
}

pub open spec fn spec_parse_command(bytes: Seq<u8>) -> Result<SpecEnum, SpecParseError> {
    match protobuf_fields(bytes) {
        Ok(fs) => command_walk(fs, 0, None),
        Err(e) => Err(SpecParseError::Wire(e)),
    }
}

/// Parses a `PF4Enum` message: its type (field 1) and value (field 2).
pub fn parse_enum(bytes: &[u8]) -> (r: Result<PF4Enum, ParseError>)
    ensures
        result_view(r) == spec_parse_enum(bytes@),
{
    let fields = match read_fields(bytes) {
        Ok(f) => f,
        Err(e) => return Err(ParseError::Wire(e)),
    };
    enum_from_fields(&fields)
}

/// The `PF4Enum` that the raw fields `fields` make up.
pub fn enum_from_fields(fields: &Vec<WireField>) -> (r: Result<PF4Enum, ParseError>)
    ensures
        result_view(r) == enum_walk(fields_view(fields@), 0, None, None),
{
    let ghost fs = fields_view(fields@);
    let mut enum_type: Option<String> = None;
    let mut value: Option<String> = None;
    let n = fields.len();
    let mut i: usize = 0;
    while i < n
        invariant
            n == fields@.len(),
            fs == fields_view(fields@),
            i <= n,
            enum_walk(fs, 0, None, None) == enum_walk(fs, i as nat, opt_text(enum_type), opt_text(value)),
        decreases n - i,
    {
        let f = &fields[i];
        assert(fs[i as int] == f@);
        match &f.value {
            WireValue::Len(p) if f.field_number == 1 && enum_type.is_none() => {
                match parse_string(p.as_slice()) {
                    Ok(s) => enum_type = Some(s),
                    Err(e) => return Err(e),
                }
            },
            WireValue::Len(p) if f.field_number == 2 && value.is_none() => {
                match parse_string(p.as_slice()) {
                    Ok(s) => value = Some(s),
                    Err(e) => return Err(e),
                }
            },
            _ => return Err(ParseError::UnexpectedField(MessageKind::PF4Enum, f.field_number)),
        }
        i += 1;
    }
    match (enum_type, value) {
        (Some(enum_type), Some(value)) => Ok(PF4Enum { enum_type, value }),
        _ => Err(ParseError::MissingField(MessageKind::PF4Enum)),
    }
}

/// Parses a `PF4NLGData` message: an optional id (field 1) and its text (field 2).
pub fn parse_nlg_data(bytes: &[u8]) -> (r: Result<PF4NLGData, ParseError>)
    ensures
        result_view(r) == spec_parse_nlg_data(bytes@),
{
    let fields = match read_fields(bytes) {
        Ok(f) => f,
        Err(e) => return Err(ParseError::Wire(e)),
    };
    nlg_data_from_fields(&fields)
}

/// The `PF4NLGData` that the raw fields `fields` make up.
pub fn nlg_data_from_fields(fields: &Vec<WireField>) -> (r: Result<PF4NLGData, ParseError>)
    ensures
        result_view(r) == nlg_walk(fields_view(fields@), 0, None, None),
{
    let ghost fs = fields_view(fields@);
    let mut id: Option<String> = None;
    let mut text: Option<String> = None;
    let n = fields.len();
    let mut i: usize = 0;
    while i < n
        invariant
            n == fields@.len(),
            fs == fields_view(fields@),
            i <= n,
            nlg_walk(fs, 0, None, None) == nlg_walk(fs, i as nat, opt_text(id), opt_text(text)),
        decreases n - i,
    {
        let f = &fields[i];
        assert(fs[i as int] == f@);
        match &f.value {
            WireValue::Len(p) if f.field_number == 1 && id.is_none() => {
                match parse_string(p.as_slice()) {
                    Ok(s) => id = Some(s),
                    Err(e) => return Err(e),
                }
            },
            WireValue::Len(p) if f.field_number == 2 && text.is_none() => {
                match parse_string(p.as_slice()) {
                    Ok(s) => text = Some(s),
                    Err(e) => return Err(e),
                }
            },
            _ => return Err(ParseError::UnexpectedField(MessageKind::PF4NLGData, f.field_number)),
        }
        i += 1;
    }
    match text {
        Some(text) => Ok(PF4NLGData { id, text }),
        None => Err(ParseError::MissingField(MessageKind::PF4NLGData)),
    }
}

/// Parses a `PF4Command` message: the command enum it wraps (field 3).
pub fn parse_command(bytes: &[u8]) -> (r: Result<PF4Enum, ParseError>)
    ensures
        result_view(r) == spec_parse_command(bytes@),
{
    let fields = match read_fields(bytes) {
        Ok(f) => f,
        Err(e) => return Err(ParseError::Wire(e)),
    };
    command_from_fields(&fields)
}

/// The command that the raw fields `fields` of a `PF4Command` make up.
pub fn command_from_fields(fields: &Vec<WireField>) -> (r: Result<PF4Enum, ParseError>)
    ensures
        result_view(r) == command_walk(fields_view(fields@), 0, None),
{
    let ghost fs = fields_view(fields@);
    let mut command: Option<PF4Enum> = None;
    let n = fields.len();
    let mut i: usize = 0;
    while i < n
        invariant
            n == fields@.len(),
            fs == fields_view(fields@),
            i <= n,
            command_walk(fs, 0, None) == command_walk(
                fs,
                i as nat,
                match command {
                    Some(c) => Some(c@),
                    None => None,
                },
            ),
        decreases n - i,
    {
        let f = &fields[i];
        assert(fs[i as int] == f@);
        match &f.value {
            WireValue::Len(p) if f.field_number == 3 && command.is_none() => {
                match parse_enum(p.as_slice()) {
                    Ok(e) => command = Some(e),
                    Err(e) => return Err(e),
                }
            },
            _ => return Err(ParseError::UnexpectedField(MessageKind::PF4Command, f.field_number)),
        }
        i += 1;
    }
    match command {
        Some(c) => Ok(c),
        None => Err(ParseError::MissingField(MessageKind::PF4Command)),
    }
}

/// The fields that the encoding gives `bytes`, whose payloads are parts of
/// `bytes` and so shorter than it (`read_fields` guarantees that it is so; a
/// result without that property stands for no fields at all).
pub open spec fn fields_of(bytes: Seq<u8>) -> Result<Seq<SpecWireField>, Seq<char>> {
    match protobuf_fields(bytes) {
        Ok(fs) => if payload_bound(fs) <= bytes.len() {
            Ok(fs)
        } else {
            Ok(Seq::empty())
        },
        Err(e) => Err(e),
    }
}

/// A `PF4MessageFields`: field 1, repeated, each a key-value pair.
pub open spec fn spec_parse_values(bytes: Seq<u8>) -> Result<Seq<SpecValue>, SpecParseError>
    decreases bytes.len(), 1int, 0int,
{
    match fields_of(bytes) {
        Ok(fs) => values_walk(fs, 0, Seq::empty()),
        Err(e) => Err(SpecParseError::Wire(e)),
    }
}

/// The key-value pairs of fields from index `i` on, after `acc`.
pub open spec fn values_walk(fs: Seq<SpecWireField>, i: nat, acc: Seq<SpecValue>) -> Result<Seq<SpecValue>, SpecParseError>
    decreases payload_bound(fs), 0int, fs.len() - i,
{
    if i >= fs.len() {
        Ok(acc)
    } else {
        let f = fs[i as int];
        if f.field_number == 1 && f.value is Len {
            proof {
                lemma_payload_bound(fs, i as int);
            }
            match spec_parse_value(f.value->Len_0) {
                Ok(v) => values_walk(fs, i + 1, acc.push(v)),
                Err(e) => Err(e),
            }
        } else {
            Err(SpecParseError::UnexpectedField(MessageKind::PF4MessageFields, f.field_number))
        }
    }
}

/// A `PF4KeyValue`: field 1 (the key, optional) and one value field.
pub open spec fn spec_parse_value(bytes: Seq<u8>) -> Result<SpecValue, SpecParseError>
    decreases bytes.len(), 1int, 0int,
{
    match fields_of(bytes) {
        Ok(fs) => pair_walk(fs, 0, None, None),
        Err(e) => Err(SpecParseError::Wire(e)),
    }
}

/// A key-value pair from the fields from index `i` on, with the key and the raw
/// value read so far. Field 1 is the key; fields 3 (varint), 4, 11, 14, 15, 16
/// (length-delimited) and 6 (64-bit) are the possible values, of which there may
/// be only one.
pub open spec fn pair_walk(
    fs: Seq<SpecWireField>,
    i: nat,
    key: Option<Seq<char>>,
    raw: Option<SpecRawValue>,
) -> Result<SpecValue, SpecParseError>
    decreases payload_bound(fs), 0int, fs.len() - i,
{
    if i >= fs.len() {
        match raw {
            Some(r) => spec_map_value(key, r),
            None => Err(SpecParseError::MissingField(MessageKind::PF4KeyValue)),
        }
    } else {
        let f = fs[i as int];
        proof {
            lemma_payload_bound(fs, i as int);
        }
        if f.field_number == 1 {
            match f.value {
                SpecWireValue::Len(p) => if key is Some {
                    Err(SpecParseError::DuplicateKey)
                } else {
                    match spec_parse_string(p) {
                        Ok(k) => pair_walk(fs, i + 1, Some(k), raw),
                        Err(e) => Err(e),
                    }
                },
                v => Err(SpecParseError::UnexpectedKeyType(v)),
            }
        } else {
            let new_raw: Result<SpecRawValue, SpecParseError> = match (f.field_number, f.value) {
                (3u32, SpecWireValue::Varint(v)) => Ok(SpecRawValue::IntValue(zigzag_decode(v))),
                (4u32, SpecWireValue::Len(p)) => match spec_parse_string(p) {
                    Ok(s) => Ok(SpecRawValue::SymbolValue(s)),
                    Err(e) => Err(e),
                },
                (6u32, SpecWireValue::I64(b)) => Ok(SpecRawValue::FloatValue(b)),
                (11u32, SpecWireValue::Len(p)) => match spec_parse_enum(p) {
                    Ok(e) => Ok(SpecRawValue::EnumValue(e)),
                    Err(e) => Err(e),
                },
                (14u32, SpecWireValue::Len(p)) => match spec_parse_command(p) {
                    Ok(e) => Ok(SpecRawValue::CommandValue(e)),
                    Err(e) => Err(e),
                },
                (15u32, SpecWireValue::Len(p)) => match spec_parse_nlg_data(p) {
                    Ok(d) => Ok(SpecRawValue::NLGData(d)),
                    Err(e) => Err(e),
                },
                (16u32, SpecWireValue::Len(p)) => match spec_parse_values(p) {
                    Ok(vs) => Ok(SpecRawValue::KeyValueArray(vs)),
                    Err(e) => Err(e),
                },
                (n, _) => Err(SpecParseError::UnexpectedField(MessageKind::PF4KeyValue, n)),
            };
            match new_raw {
                Ok(r) => if let Some(first) = raw {
                    Err(SpecParseError::DuplicateValue(first))
                } else {
                    pair_walk(fs, i + 1, key, Some(r))
                },
                Err(e) => Err(e),
            }
        }
    }
}

pub open spec fn values_result(r: Result<Vec<Value>, ParseError>) -> Result<Seq<SpecValue>, SpecParseError> {
    match r {
        Ok(v) => Ok(values_model(v@)),
        Err(e) => Err(e@),
    }
}

pub open spec fn opt_raw(r: Option<PF4RawValue>) -> Option<SpecRawValue> {
    match r {
        Some(x) => Some(x@),
        None => None,
    }
}

proof fn lemma_values_model_push(s: Seq<Value>, v: Value)
    ensures
        values_model(s.push(v)) == values_model(s).push(v@),
{
    assert(s.push(v).subrange(0, s.len() as int) =~= s);
}

/// Parses a `PF4MessageFields` message: its key-value pairs (field 1), in order.
pub fn parse_values(bytes: &[u8]) -> (r: Result<Vec<Value>, ParseError>)
    ensures
        values_result(r) == spec_parse_values(bytes@),
    decreases bytes@.len(), 1int, 0int,
{
    let fields = match read_fields(bytes) {
        Ok(f) => f,
        Err(e) => return Err(ParseError::Wire(e)),
    };
    proof {
        lemma_payload_bound_le(fields_view(fields@), bytes@.len());
    }
    values_from_fields(&fields)
}

/// The key-value pairs that the raw fields `fields` of a `PF4MessageFields` make up.
pub fn values_from_fields(fields: &Vec<WireField>) -> (r: Result<Vec<Value>, ParseError>)
    ensures
        values_result(r) == values_walk(fields_view(fields@), 0, Seq::empty()),
    decreases payload_bound(fields_view(fields@)), 0int, 0int,
{
    let ghost fs = fields_view(fields@);
    let mut out: Vec<Value> = Vec::new();
    let n = fields.len();
    let mut i: usize = 0;
    assert(values_model(out@) =~= Seq::<SpecValue>::empty());
    while i < n
        invariant
            n == fields@.len(),
            fs == fields_view(fields@),
            i <= n,
            values_walk(fs, 0, Seq::empty()) == values_walk(fs, i as nat, values_model(out@)),
        decreases n - i,
    {
        let f = &fields[i];
        assert(fs[i as int] == f@);
        proof {
            lemma_payload_bound(fs, i as int);
        }
        match &f.value {
            WireValue::Len(p) if f.field_number == 1 => {
                match parse_value(p.as_slice()) {
                    Ok(v) => {
                        proof {
                            lemma_values_model_push(out@, v);
                        }
                        out.push(v);
                    },
                    Err(e) => return Err(e),
                }
            },
            _ => return Err(
                ParseError::UnexpectedField(MessageKind::PF4MessageFields, f.field_number),
            ),
        }
        i += 1;
    }
    Ok(out)
}

/// Parses a `PF4KeyValue` message into the value that its key gives it.
pub fn parse_value(bytes: &[u8]) -> (r: Result<Value, ParseError>)
    ensures
        result_view(r) == spec_parse_value(bytes@),
    decreases bytes@.len(), 1int, 0int,
{
    let fields = match read_fields(bytes) {
        Ok(f) => f,
        Err(e) => return Err(ParseError::Wire(e)),
    };
    proof {
        lemma_payload_bound_le(fields_view(fields@), bytes@.len());
    }
    value_from_fields(&fields)
}

/// The value that the raw fields `fields` of a `PF4KeyValue` make up.
pub fn value_from_fields(fields: &Vec<WireField>) -> (r: Result<Value, ParseError>)
    ensures
        result_view(r) == pair_walk(fields_view(fields@), 0, None, None),
    decreases payload_bound(fields_view(fields@)), 0int, 0int,
{
    let ghost fs = fields_view(fields@);
    let mut key: Option<String> = None;
    let mut raw: Option<PF4RawValue> = None;
    let n = fields.len();
    let mut i: usize = 0;
    while i < n
        invariant
            n == fields@.len(),
            fs == fields_view(fields@),
            i <= n,
            pair_walk(fs, 0, None, None) == pair_walk(fs, i as nat, opt_text(key), opt_raw(raw)),
        decreases n - i,
    {
        let f = &fields[i];
        assert(fs[i as int] == f@);
        proof {
            lemma_payload_bound(fs, i as int);
        }
        if f.field_number == 1 {
            match &f.value {
                WireValue::Len(p) => {
                    if key.is_some() {
                        return Err(ParseError::DuplicateKey);
                    }
                    match parse_string(p.as_slice()) {
                        Ok(k) => key = Some(k),
                        Err(e) => return Err(e),
                    }
                },
                other => return Err(ParseError::UnexpectedKeyType(copy_wire_value(other))),
            }
        } else {
            let new_raw = match (f.field_number, &f.value) {
                (3, WireValue::Varint(v)) => PF4RawValue::IntValue(sint64_of(*v)),
                (4, WireValue::Len(p)) => match parse_string(p.as_slice()) {
                    Ok(s) => PF4RawValue::SymbolValue(s),
                    Err(e) => return Err(e),
                },
                (6, WireValue::I64(b)) => PF4RawValue::FloatValue(*b),
                (11, WireValue::Len(p)) => match parse_enum(p.as_slice()) {
                    Ok(e) => PF4RawValue::EnumValue(e),
                    Err(e) => return Err(e),
                },
                (14, WireValue::Len(p)) => match parse_command(p.as_slice()) {
                    Ok(e) => PF4RawValue::CommandValue(e),
                    Err(e) => return Err(e),
                },
                (15, WireValue::Len(p)) => match parse_nlg_data(p.as_slice()) {
                    Ok(d) => PF4RawValue::NLGData(d),
                    Err(e) => return Err(e),
                },
                (16, WireValue::Len(p)) => match parse_values(p.as_slice()) {
                    Ok(vs) => PF4RawValue::KeyValueArray(vs),
                    Err(e) => return Err(e),
                },
                (n, _) => return Err(ParseError::UnexpectedField(MessageKind::PF4KeyValue, n)),
            };
            if let Some(first) = raw {
                return Err(ParseError::DuplicateValue(first));
            }
            raw = Some(new_raw);
        }
        i += 1;
    }
    match raw {
        Some(r) => map_value(key, r),
        None => Err(ParseError::MissingField(MessageKind::PF4KeyValue)),
    }
}

/// A `PF4Message` from the fields from index `i` on: field 2 (the arguments)
/// and field 5 (the command), each required and at most once.
pub open spec fn message_walk(
    fs: Seq<SpecWireField>,
    i: nat,
    args: Option<Seq<SpecValue>>,
    command: Option<SpecEnum>,
) -> Result<SpecGuidance, SpecParseError>
    decreases fs.len() - i,
{
    if i >= fs.len() {
        match (args, command) {
            (Some(a), Some(c)) => spec_map_guidance(c, a),
            _ => Err(SpecParseError::MissingField(MessageKind::PF4Message)),
        }
    } else {
        let f = fs[i as int];
        if f.field_number == 2 && f.value is Len && args is None {
            match spec_parse_values(f.value->Len_0) {
                Ok(a) => message_walk(fs, i + 1, Some(a), command),
                Err(e) => Err(e),
            }
        } else if f.field_number == 5 && f.value is Len && command is None {
            match spec_parse_command(f.value->Len_0) {
                Ok(c) => message_walk(fs, i + 1, args, Some(c)),
                Err(e) => Err(e),
            }
        } else {
            Err(SpecParseError::UnexpectedField(MessageKind::PF4Message, f.field_number))
        }
    }
}

pub open spec fn spec_parse_guidance(bytes: Seq<u8>) -> Result<SpecGuidance, SpecParseError> {
    match protobuf_fields(bytes) {
        Ok(fs) => message_walk(fs, 0, None, None),
        Err(e) => Err(SpecParseError::Wire(e)),
    }
}

/// The outer `StructuredMessage` from the fields from index `i` on: field 2
/// (the body), required and at most once.
pub open spec fn envelope_walk(fs: Seq<SpecWireField>, i: nat, body: Option<SpecGuidance>) -> Result<SpecGuidance, SpecParseError>
    decreases fs.len() - i,
{
    if i >= fs.len() {
        match body {
            Some(g) => Ok(g),
            None => Err(SpecParseError::MissingField(MessageKind::Envelope)),
        }
    } else {
        let f = fs[i as int];
        if f.field_number == 2 && f.value is Len && body is None {
            match spec_parse_guidance(f.value->Len_0) {
                Ok(g) => envelope_walk(fs, i + 1, Some(g)),
                Err(e) => Err(e),
            }
        } else {
            Err(SpecParseError::UnexpectedField(MessageKind::Envelope, f.field_number))
        }
    }
}

/// The guidance that a structured message encodes, or why it is refused.
pub open spec fn spec_parse(bytes: Seq<u8>) -> Result<SpecGuidance, SpecParseError> {
    match protobuf_fields(bytes) {
        Ok(fs) => envelope_walk(fs, 0, None),
        Err(e) => Err(SpecParseError::Wire(e)),
    }
}

pub open spec fn opt_values(o: Option<Vec<Value>>) -> Option<Seq<SpecValue>> {
    match o {
        Some(v) => Some(values_model(v@)),
        None => None,
    }
}

pub open spec fn opt_enum(o: Option<PF4Enum>) -> Option<SpecEnum> {
    match o {
        Some(e) => Some(e@),
        None => None,
    }
}

/// Parses a `PF4Message`: its arguments (field 2) and command (field 5).
pub fn parse_guidance(bytes: &[u8]) -> (r: Result<Guidance, ParseError>)
    ensures
        result_view(r) == spec_parse_guidance(bytes@),
{
    let fields = match read_fields(bytes) {
        Ok(f) => f,
        Err(e) => return Err(ParseError::Wire(e)),
    };
    guidance_from_fields(&fields)
}

/// The guidance that the raw fields `fields` of a `PF4Message` make up.
pub fn guidance_from_fields(fields: &Vec<WireField>) -> (r: Result<Guidance, ParseError>)
    ensures
        result_view(r) == message_walk(fields_view(fields@), 0, None, None),
{
    let ghost fs = fields_view(fields@);
    let mut args: Option<Vec<Value>> = None;
    let mut command: Option<PF4Enum> = None;
    let n = fields.len();
    let mut i: usize = 0;
    while i < n
        invariant
            n == fields@.len(),
            fs == fields_view(fields@),
            i <= n,
            message_walk(fs, 0, None, None) == message_walk(
                fs,
                i as nat,
                opt_values(args),
                opt_enum(command),
            ),
        decreases n - i,
    {
        let f = &fields[i];
        assert(fs[i as int] == f@);
        match &f.value {
            WireValue::Len(p) if f.field_number == 2 && args.is_none() => {
                match parse_values(p.as_slice()) {
                    Ok(a) => args = Some(a),
                    Err(e) => return Err(e),
                }
            },
            WireValue::Len(p) if f.field_number == 5 && command.is_none() => {
                match parse_command(p.as_slice()) {
                    Ok(c) => command = Some(c),
                    Err(e) => return Err(e),
                }
            },
            _ => return Err(ParseError::UnexpectedField(MessageKind::PF4Message, f.field_number)),
        }
        i += 1;
    }
    match (args, command) {
        (Some(a), Some(c)) => map_guidance(c, a),
        _ => Err(ParseError::MissingField(MessageKind::PF4Message)),
    }
}

/// Parses a structured message into the guidance that it carries.
pub fn parse(bytes: &[u8]) -> (r: Result<Guidance, ParseError>)
    ensures
        result_view(r) == spec_parse(bytes@),
{
    let fields = match read_fields(bytes) {
        Ok(f) => f,
        Err(e) => return Err(ParseError::Wire(e)),
    };
    envelope_from_fields(&fields)
}

/// The guidance of a structured message, from the message's raw fields.
pub fn envelope_from_fields(fields: &Vec<WireField>) -> (r: Result<Guidance, ParseError>)
    ensures
        result_view(r) == envelope_walk(fields_view(fields@), 0, None),
{
    let ghost fs = fields_view(fields@);
    let mut body: Option<Guidance> = None;
    let n = fields.len();
    let mut i: usize = 0;
    while i < n
        invariant
            n == fields@.len(),
            fs == fields_view(fields@),
            i <= n,
            envelope_walk(fs, 0, None) == envelope_walk(fs, i as nat, opt_guidance(body)),
        decreases n - i,
    {
        let f = &fields[i];
        assert(fs[i as int] == f@);
        match &f.value {
            WireValue::Len(p) if f.field_number == 2 && body.is_none() => {
                match parse_guidance(p.as_slice()) {
                    Ok(g) => body = Some(g),
                    Err(e) => return Err(e),
                }
            },
            _ => return Err(ParseError::UnexpectedField(MessageKind::Envelope, f.field_number)),
        }
        i += 1;
    }
    match body {
        Some(g) => Ok(g),
        None => Err(ParseError::MissingField(MessageKind::Envelope)),
    }
}

// ---------------------------------------------------------------------------
// A readable dump of the raw fields, for diagnostics
// ---------------------------------------------------------------------------

/// The bytes of `x` in little-endian order.
pub open spec fn le_bytes(x: u64) -> Seq<u8> {
    Seq::new(8, |i: int| ((x >> (8 * i) as u64) & 0xffu64) as u8)
}

/// The decimal numerals of `b`, comma-separated, in brackets.
pub open spec fn byte_list(b: Seq<u8>) -> Seq<char> {
    "["@ + join(b.map_values(|x: u8| decimal(x as nat)), ", "@) + "]"@
}

/// How a value other than a length-delimited one is shown: the variant of the
/// decoder's field value with its bytes.
pub open spec fn value_text(v: SpecWireValue) -> Seq<char> {
    match v {
        SpecWireValue::Varint(x) => "Varint(Varint("@ + byte_list(le_bytes(x)) + "))"@,
        SpecWireValue::I32(b) => "I32("@ + byte_list(b@) + ")"@,
        SpecWireValue::I64(b) => "I64("@ + byte_list(b@) + ")"@,
        SpecWireValue::StartGroup => "SGroup"@,
        SpecWireValue::EndGroup => "EGroup"@,
        SpecWireValue::Len(p) => byte_list(p),
    }
}

/// The dump of a message: its fields between parentheses, one per line, each
/// line indented by `indent` spaces. A length-delimited field shows its text
/// when it is UTF-8 without control characters; otherwise its length and the
/// dump of its payload as a nested message, indented two spaces more.
pub open spec fn spec_dump(bytes: Seq<u8>, indent: nat) -> Result<Seq<char>, SpecParseError>
    decreases bytes.len(), 1int, 0int,
{
    match fields_of(bytes) {
        Ok(fs) => match dump_walk(fs, 0, indent) {
            Ok(body) => Ok(spaces(indent) + "(\n"@ + body + spaces(indent) + ")\n"@),
            Err(e) => Err(e),
        },
        Err(e) => Err(SpecParseError::Wire(e)),
    }
}

/// The lines of the fields from index `i` on.
pub open spec fn dump_walk(fs: Seq<SpecWireField>, i: nat, indent: nat) -> Result<Seq<char>, SpecParseError>
    decreases payload_bound(fs), 0int, fs.len() - i,
{
    if i >= fs.len() {
        Ok(Seq::empty())
    } else {
        let f = fs[i as int];
        let head = spaces(indent) + decimal(f.field_number as nat) + ": "@;
        proof {
            lemma_payload_bound(fs, i as int);
        }
        let line: Result<Seq<char>, SpecParseError> = match f.value {
            SpecWireValue::Len(p) => if valid_utf8(p) && free_of_controls(decode_utf8(p)) {
                Ok(head + decode_utf8(p) + "\n"@)
            } else {
                match spec_dump(p, indent + 2) {
                    Ok(d) => Ok(
                        head + "(binary data, length "@ + decimal(p.len()) + ")\n"@ + d,
                    ),
                    Err(e) => Err(e),
                }
            },
            v => Ok(head + value_text(v) + "\n"@),
        };
        match line {
            Ok(l) => match dump_walk(fs, i + 1, indent) {
                Ok(rest) => Ok(l + rest),
                Err(e) => Err(e),
            },
            Err(e) => Err(e),
        }
    }
}

fn byte_list_text(b: &[u8]) -> (r: String)
    ensures
        r@ == byte_list(b@),
{
    let ghost parts = b@.map_values(|x: u8| decimal(x as nat));
    let mut out = String::new();
    let n = b.len();
    let mut i: usize = 0;
    while i < n
        invariant
            n == b@.len(),
            i <= n,
            parts == b@.map_values(|x: u8| decimal(x as nat)),
            out@ == join(parts.take(i as int), ", "@),
        decreases n - i,
    {
        assert(parts.take(i + 1).drop_last() =~= parts.take(i as int));
        if i > 0 {
            out.append(", ");
        }
        let d = decimal_text(b[i] as u64);
        out.append(d.as_str());
        i += 1;
        proof {
            if i == 1 {
                assert(out@ =~= parts.take(1)[0]);
            }
        }
    }
    assert(parts.take(n as int) =~= parts);
    let mut r = String::from_str("[");
    r.append(out.as_str());
    r.append("]");
    r
}

fn value_text_of(v: &WireValue) -> (r: String)
    ensures
        r@ == value_text(v@),
{
    match v {
        WireValue::Varint(x) => {
            let mut bytes: Vec<u8> = Vec::new();
            let mut i: u64 = 0;
            while i < 8
                invariant
                    i <= 8,
                    bytes@.len() == i,
                    forall|j: int| 0 <= j < i ==> bytes@[j] == le_bytes(*x)[j],
                decreases 8 - i,
            {
                bytes.push(((*x >> (8 * i)) & 0xff) as u8);
                i += 1;
            }
            assert(bytes@ =~= le_bytes(*x));
            let mut r = String::from_str("Varint(Varint(");
            r.append(byte_list_text(bytes.as_slice()).as_str());
            r.append("))");
            r
        },
        WireValue::I32(b) => {
            let mut r = String::from_str("I32(");
            r.append(byte_list_text(b.as_slice()).as_str());
            r.append(")");
            r
        },
        WireValue::I64(b) => {
            let mut r = String::from_str("I64(");
            r.append(byte_list_text(b.as_slice()).as_str());
            r.append(")");
            r
        },
        WireValue::StartGroup => String::from_str("SGroup"),
        WireValue::EndGroup => String::from_str("EGroup"),
        WireValue::Len(p) => byte_list_text(p.as_slice()),
    }
}

/// A readable dump of the raw fields of `bytes`, nested messages included,
/// indented by `indent` spaces.
pub fn dump_proto(bytes: &[u8], indent: usize) -> (r: Result<String, ParseError>)
    requires
        indent + 2 * bytes@.len() <= usize::MAX,
    ensures
        result_view(r) == spec_dump(bytes@, indent as nat),
    decreases bytes@.len(), 1int, 0int,
{
    let fields = match read_fields(bytes) {
        Ok(f) => f,
        Err(e) => return Err(ParseError::Wire(e)),
    };
    proof {
        lemma_payload_bound_le(fields_view(fields@), bytes@.len());
    }
    let body = match dump_fields(&fields, indent, Ghost(bytes@.len())) {
        Ok(b) => b,
        Err(e) => return Err(e),
    };
    let pad = spaces_text(indent);
    let mut out = String::new();
    out.append(pad.as_str());
    out.append("(\n");
    out.append(body.as_str());
    out.append(pad.as_str());
    out.append(")\n");
    Ok(out)
}

fn dump_fields(fields: &Vec<WireField>, indent: usize, Ghost(len): Ghost<nat>) -> (r: Result<String, ParseError>)
    requires
        payload_bound(fields_view(fields@)) <= len,
        indent + 2 * len <= usize::MAX,
    ensures
        result_view(r) == dump_walk(fields_view(fields@), 0, indent as nat),
    decreases payload_bound(fields_view(fields@)), 0int, 0int,
{
    let ghost fs = fields_view(fields@);
    let mut out = String::new();
    let n = fields.len();
    let mut i: usize = 0;
    while i < n
        invariant
            n == fields@.len(),
            fs == fields_view(fields@),
            i <= n,
            payload_bound(fs) <= len,
            indent + 2 * len <= usize::MAX,
            dump_walk(fs, 0, indent as nat) == match dump_walk(fs, i as nat, indent as nat) {
                Ok(rest) => Ok(out@ + rest),
                Err(e) => Err(e),
            },
        decreases n - i,
    {
        let f = &fields[i];
        assert(fs[i as int] == f@);
        proof {
            lemma_payload_bound(fs, i as int);
        }
        let mut line = spaces_text(indent);
        line.append(decimal_text(f.field_number as u64).as_str());
        line.append(": ");
        match &f.value {
            WireValue::Len(p) => {
                let text = utf8_text(p.as_slice());
                let mut shown = false;
                if let Ok(t) = &text {
                    if text_free_of_controls(t.as_str()) {
                        line.append(t.as_str());
                        line.append("\n");
                        shown = true;
                    }
                }
                if !shown {
                    line.append("(binary data, length ");
                    line.append(decimal_text(p.len() as u64).as_str());
                    line.append(")\n");
                    match dump_proto(p.as_slice(), indent + 2) {
                        Ok(d) => line.append(d.as_str()),
                        Err(e) => return Err(e),
                    }
                }
            },
            v => {
                line.append(value_text_of(v).as_str());
                line.append("\n");
            },
        }
        let ghost prev = out@;
        out.append(line.as_str());
        proof {
            assert(out@ == prev + line@);
            assert forall|rest: Seq<char>| prev + (line@ + rest) == out@ + rest by {
                assert(prev + (line@ + rest) =~= out@ + rest);
            }
        }
        i += 1;
    }
    assert(out@ + Seq::<char>::empty() =~= out@);
    Ok(out)
}

// ---------------------------------------------------------------------------
// Laws of the arguments of a command
// ---------------------------------------------------------------------------

/// `s` with its `i`-th and `i + 1`-th elements exchanged.
pub open spec fn swap_adjacent(s: Seq<SpecValue>, i: int) -> Seq<SpecValue> {
    s.update(i, s[i + 1]).update(i + 1, s[i])
}

proof fn lemma_last_of_kind_swap(s: Seq<SpecValue>, i: int, k: u8)
    requires
        0 <= i,
        i + 1 < s.len(),
        arg_kind(s[i]) != arg_kind(s[i + 1]),
    ensures
        last_of_kind(swap_adjacent(s, i), k) == last_of_kind(s, k),
    decreases s.len(),
{
    let t = swap_adjacent(s, i);
    if i + 1 == s.len() - 1 {
        assert(t.last() == s[i]);
        assert(t.drop_last().last() == s[i + 1]);
        assert(s.drop_last().last() == s[i]);
        assert(t.drop_last().drop_last() =~= s.drop_last().drop_last());
        reveal_with_fuel(last_of_kind, 3);
    } else {
        assert(t.last() == s.last());
        assert(t.drop_last() =~= swap_adjacent(s.drop_last(), i));
        lemma_last_of_kind_swap(s.drop_last(), i, k);
    }
}

proof fn lemma_last_of_kind_remove_other(s: Seq<SpecValue>, i: int, k: u8)
    requires
        0 <= i < s.len(),
        arg_kind(s[i]) != k,
    ensures
        last_of_kind(s.remove(i), k) == last_of_kind(s, k),
    decreases s.len(),
{
    if i == s.len() - 1 {
        assert(s.remove(i) =~= s.drop_last());
    } else {
        assert(s.remove(i).last() == s.last());
        assert(s.remove(i).drop_last() =~= s.drop_last().remove(i));
        lemma_last_of_kind_remove_other(s.drop_last(), i, k);
    }
}

proof fn lemma_last_of_kind_remove_shadowed(s: Seq<SpecValue>, i: int, j: int, k: u8)
    requires
        0 <= i < j < s.len(),
        arg_kind(s[i]) == arg_kind(s[j]),
    ensures
        last_of_kind(s.remove(i), k) == last_of_kind(s, k),
    decreases s.len(),
{
    if arg_kind(s[i]) != k {
        lemma_last_of_kind_remove_other(s, i, k);
    } else {
        assert(s.remove(i).last() == s.last());
        if arg_kind(s.last()) != k {
            assert(j < s.len() - 1);
            assert(s.remove(i).drop_last() =~= s.drop_last().remove(i));
            lemma_last_of_kind_remove_shadowed(s.drop_last(), i, j, k);
        }
    }
}

/// Two argument lists that agree on the last argument of every kind, and on
/// the first argument that the named command refuses, stand for the same
/// guidance (for a command other than the one that takes no arguments).
proof fn lemma_map_guidance_congruent(command: SpecEnum, s: Seq<SpecValue>, t: Seq<SpecValue>)
    requires
        forall|k: u8| #[trigger] last_of_kind(s, k) == last_of_kind(t, k),
        command_of(command.value) matches Some(c) ==> c != Command::DestinationStepAct
            && first_refused(c, s) == first_refused(c, t),
    ensures
        spec_map_guidance(command, s) == spec_map_guidance(command, t),
{
    assert(last_of_kind(s, 0) == last_of_kind(t, 0));
    assert(last_of_kind(s, 1) == last_of_kind(t, 1));
    assert(last_of_kind(s, 2) == last_of_kind(t, 2));
    assert(last_of_kind(s, 3) == last_of_kind(t, 3));
    assert(last_of_kind(s, 4) == last_of_kind(t, 4));
    assert(last_of_kind(s, 5) == last_of_kind(t, 5));
    assert(last_of_kind(s, 6) == last_of_kind(t, 6));
    assert(last_of_kind(s, 7) == last_of_kind(t, 7));
    assert(last_of_kind(s, 8) == last_of_kind(t, 8));
    assert(last_of_kind(s, 9) == last_of_kind(t, 9));
    assert(last_of_kind(s, 10) == last_of_kind(t, 10));
    assert(last_of_kind(s, 12) == last_of_kind(t, 12));
    assert(last_of_kind(s, 15) == last_of_kind(t, 15));
    assert(last_of_kind(s, 16) == last_of_kind(t, 16));
    assert(last_of_kind(s, 17) == last_of_kind(t, 17));
    assert(last_of_kind(s, 18) == last_of_kind(t, 18));
    assert(last_of_kind(s, 20) == last_of_kind(t, 20));
    assert(last_of_kind(s, 21) == last_of_kind(t, 21));
    if command.enum_type == "pathfinder4"@ {
        if let Some(c) = command_of(command.value) {
            assert(build_guidance(c, s) == build_guidance(c, t));
        }
    }
}

proof fn lemma_first_refused_swap(c: Command, s: Seq<SpecValue>, i: int)
    requires
        0 <= i,
        i + 1 < s.len(),
        takes_arg(c, s[i]) || takes_arg(c, s[i + 1]),
    ensures
        first_refused(c, swap_adjacent(s, i)) == first_refused(c, s),
    decreases s.len(),
{
    let t = swap_adjacent(s, i);
    if i == 0 {
        assert(t[0] == s[1]);
        assert(t.drop_first()[0] == s[0]);
        assert(s.drop_first()[0] == s[1]);
        assert(t.drop_first().drop_first() =~= s.drop_first().drop_first());
        reveal_with_fuel(first_refused, 3);
    } else {
        assert(t[0] == s[0]);
        assert(t.drop_first() =~= swap_adjacent(s.drop_first(), i - 1));
        lemma_first_refused_swap(c, s.drop_first(), i - 1);
    }
}

proof fn lemma_first_refused_remove(c: Command, s: Seq<SpecValue>, i: int)
    requires
        0 <= i < s.len(),
        takes_arg(c, s[i]),
    ensures
        first_refused(c, s.remove(i)) == first_refused(c, s),
    decreases s.len(),
{
    if i == 0 {
        assert(s.remove(0) =~= s.drop_first());
    } else {
        assert(s.remove(i)[0] == s[0]);
        assert(s.remove(i).drop_first() =~= s.drop_first().remove(i - 1));
        lemma_first_refused_remove(c, s.drop_first(), i - 1);
    }
}

/// Whether a command takes a value depends on the value's kind alone.
pub proof fn lemma_takes_arg_by_kind(c: Command, a: SpecValue, b: SpecValue)
    requires
        arg_kind(a) == arg_kind(b),
    ensures
        takes_arg(c, a) == takes_arg(c, b),
{
}

/// Arguments of different kinds may come in either order: exchanging two
/// neighbouring arguments of different kinds, at least one of which the command
/// takes, does not change the guidance that a command stands for, nor the error
/// that refuses it.
pub proof fn law_arguments_of_different_kinds_commute(command: SpecEnum, args: Seq<SpecValue>, i: int)
    requires
        0 <= i,
        i + 1 < args.len(),
        arg_kind(args[i]) != arg_kind(args[i + 1]),
        command_of(command.value) matches Some(c) ==> takes_arg(c, args[i]) || takes_arg(
            c,
            args[i + 1],
        ),
    ensures
        spec_map_guidance(command, swap_adjacent(args, i)) == spec_map_guidance(command, args),
{
    let t = swap_adjacent(args, i);
    assert forall|k: u8| #[trigger] last_of_kind(t, k) == last_of_kind(args, k) by {
        lemma_last_of_kind_swap(args, i, k);
    }
    if let Some(c) = command_of(command.value) {
        lemma_first_refused_swap(c, args, i);
    }
    lemma_map_guidance_congruent(command, t, args);
}

/// Of several arguments of one kind the last one counts: dropping an argument
/// of a kind that the command takes, which a later one of the same kind
/// follows, does not change the guidance that a command stands for, nor the
/// error that refuses it.
pub proof fn law_later_argument_overrides(command: SpecEnum, args: Seq<SpecValue>, i: int, j: int)
    requires
        0 <= i < j < args.len(),
        arg_kind(args[i]) == arg_kind(args[j]),
        command_of(command.value) matches Some(c) ==> takes_arg(c, args[i]),
    ensures
        spec_map_guidance(command, args.remove(i)) == spec_map_guidance(command, args),
{
    let t = args.remove(i);
    assert forall|k: u8| #[trigger] last_of_kind(t, k) == last_of_kind(args, k) by {
        lemma_last_of_kind_remove_shadowed(args, i, j, k);
    }
    if let Some(c) = command_of(command.value) {
        lemma_first_refused_remove(c, args, i);
    }
    lemma_map_guidance_congruent(command, t, args);
}

// ---------------------------------------------------------------------------
// Laws of the message structure
// ---------------------------------------------------------------------------

/// Whether `f` is a length-delimited field numbered `n`.
pub open spec fn is_len_field(f: SpecWireField, n: u32) -> bool {
    f.field_number == n && f.value is Len
}

/// A structured message stands for the guidance of its body: it is accepted
/// exactly when its fields are one length-delimited field 2 whose guidance
/// parses, and it then is that guidance. Without fields it lacks its body; a
/// first field other than the body, or any field after the body, is refused
/// by its number; an encoding that cannot be read is refused as such.
pub proof fn law_message_is_its_body(bytes: Seq<u8>)
    ensures
        match protobuf_fields(bytes) {
            Err(e) => spec_parse(bytes) == Err::<SpecGuidance, SpecParseError>(SpecParseError::Wire(e)),
            Ok(fs) => {
                &&& spec_parse(bytes) is Ok <==> (fs.len() == 1 && is_len_field(fs[0], 2)
                    && spec_parse_guidance(fs[0].value->Len_0) is Ok)
                &&& (fs.len() == 1 && is_len_field(fs[0], 2)) ==> spec_parse(bytes)
                    == spec_parse_guidance(fs[0].value->Len_0)
                &&& fs.len() == 0 ==> spec_parse(bytes) == Err::<SpecGuidance, SpecParseError>(
                    SpecParseError::MissingField(MessageKind::Envelope),
                )
                &&& (fs.len() > 0 && !is_len_field(fs[0], 2)) ==> spec_parse(bytes) == Err::<
                    SpecGuidance,
                    SpecParseError,
                >(SpecParseError::UnexpectedField(MessageKind::Envelope, fs[0].field_number))
                &&& (fs.len() > 1 && is_len_field(fs[0], 2) && spec_parse_guidance(
                    fs[0].value->Len_0,
                ) is Ok) ==> spec_parse(bytes) == Err::<SpecGuidance, SpecParseError>(
                    SpecParseError::UnexpectedField(MessageKind::Envelope, fs[1].field_number),
                )
            },
        },
{
    reveal_with_fuel(envelope_walk, 3);
}

/// The guidance that a guidance message's arguments (field 2) and command
/// (field 5) stand for, each read in the order in which it comes; `args_first`
/// tells whether field 2 comes first.
pub open spec fn args_and_command(a: Seq<u8>, c: Seq<u8>, args_first: bool) -> Result<SpecGuidance, SpecParseError> {
    if args_first {
        match spec_parse_values(a) {
            Err(e) => Err(e),
            Ok(vs) => match spec_parse_command(c) {
                Err(e) => Err(e),
                Ok(cmd) => spec_map_guidance(cmd, vs),
            },
        }
    } else {
        match spec_parse_command(c) {
            Err(e) => Err(e),
            Ok(cmd) => match spec_parse_values(a) {
                Err(e) => Err(e),
                Ok(vs) => spec_map_guidance(cmd, vs),
            },
        }
    }
}

/// A guidance message needs its arguments (field 2) and its command (field 5),
/// each once and nothing else: it is accepted only when its fields are exactly
/// these two, in either order, and it then stands for the guidance that the
/// command maps the arguments to. Without either of them, it lacks a field.
pub proof fn law_guidance_needs_args_and_command(bytes: Seq<u8>)
    ensures
        match protobuf_fields(bytes) {
            Err(e) => spec_parse_guidance(bytes) == Err::<SpecGuidance, SpecParseError>(
                SpecParseError::Wire(e),
            ),
            Ok(fs) => {
                &&& spec_parse_guidance(bytes) is Ok ==> fs.len() == 2 && ((is_len_field(fs[0], 2)
                    && is_len_field(fs[1], 5)) || (is_len_field(fs[0], 5) && is_len_field(fs[1], 2)))
                &&& (fs.len() == 2 && is_len_field(fs[0], 2) && is_len_field(fs[1], 5))
                    ==> spec_parse_guidance(bytes) == args_and_command(
                    fs[0].value->Len_0,
                    fs[1].value->Len_0,
                    true,
                )
                &&& (fs.len() == 2 && is_len_field(fs[0], 5) && is_len_field(fs[1], 2))
                    ==> spec_parse_guidance(bytes) == args_and_command(
                    fs[1].value->Len_0,
                    fs[0].value->Len_0,
                    false,
                )
                &&& fs.len() == 0 ==> spec_parse_guidance(bytes) == Err::<SpecGuidance, SpecParseError>(
                    SpecParseError::MissingField(MessageKind::PF4Message),
                )
            },
        },
{
    reveal_with_fuel(message_walk, 4);
}

/// The raw value that a value field of a key-value pair holds: a ZigZag
/// integer (3), a symbol (4), a double (6), an enum (11), a command (14), text
/// data (15) or nested pairs (16); any other field is refused by its number.
pub open spec fn raw_field(f: SpecWireField) -> Result<SpecRawValue, SpecParseError> {
    match (f.field_number, f.value) {
        (3u32, SpecWireValue::Varint(v)) => Ok(SpecRawValue::IntValue(zigzag_decode(v))),
        (4u32, SpecWireValue::Len(p)) => match spec_parse_string(p) {
            Ok(s) => Ok(SpecRawValue::SymbolValue(s)),
            Err(e) => Err(e),
        },
        (6u32, SpecWireValue::I64(b)) => Ok(SpecRawValue::FloatValue(b)),
        (11u32, SpecWireValue::Len(p)) => match spec_parse_enum(p) {
            Ok(e) => Ok(SpecRawValue::EnumValue(e)),
            Err(e) => Err(e),
        },
        (14u32, SpecWireValue::Len(p)) => match spec_parse_command(p) {
            Ok(e) => Ok(SpecRawValue::CommandValue(e)),
            Err(e) => Err(e),
        },
        (15u32, SpecWireValue::Len(p)) => match spec_parse_nlg_data(p) {
            Ok(d) => Ok(SpecRawValue::NLGData(d)),
            Err(e) => Err(e),
        },
        (16u32, SpecWireValue::Len(p)) => match spec_parse_values(p) {
            Ok(vs) => Ok(SpecRawValue::KeyValueArray(vs)),
            Err(e) => Err(e),
        },
        (n, _) => Err(SpecParseError::UnexpectedField(MessageKind::PF4KeyValue, n)),
    }
}

/// The value of a pair with key text `key` (when the key field reads) and value
/// field `f`, the key field coming first when `key_first`.
pub open spec fn keyed_pair_value(key: Seq<u8>, f: SpecWireField, key_first: bool) -> Result<SpecValue, SpecParseError> {
    if key_first {
        match spec_parse_string(key) {
            Err(e) => Err(e),
            Ok(k) => match raw_field(f) {
                Err(e) => Err(e),
                Ok(r) => spec_map_value(Some(k), r),
            },
        }
    } else {
        match raw_field(f) {
            Err(e) => Err(e),
            Ok(r) => match spec_parse_string(key) {
                Err(e) => Err(e),
                Ok(k) => spec_map_value(Some(k), r),
            },
        }
    }
}

/// A key-value pair sends its one value field to the value mapping: with an
/// optional key (field 1, length-delimited, UTF-8) before or after exactly one
/// value field, it stands for the value that the key gives the raw value of
/// that field, errors of reading the fields coming in the fields' order.
pub proof fn law_pair_maps_its_value(bytes: Seq<u8>)
    requires
        protobuf_fields(bytes) matches Ok(fs) && payloads_shorter_than(fs, bytes.len()),
    ensures
        ({
            let fs = protobuf_fields(bytes)->Ok_0;
            &&& (fs.len() == 1 && fs[0].field_number != 1) ==> spec_parse_value(bytes) == match raw_field(
                fs[0],
            ) {
                Err(e) => Err(e),
                Ok(r) => spec_map_value(None, r),
            }
            &&& (fs.len() == 2 && is_len_field(fs[0], 1) && fs[1].field_number != 1)
                ==> spec_parse_value(bytes) == keyed_pair_value(fs[0].value->Len_0, fs[1], true)
            &&& (fs.len() == 2 && fs[0].field_number != 1 && is_len_field(fs[1], 1))
                ==> spec_parse_value(bytes) == keyed_pair_value(fs[1].value->Len_0, fs[0], false)
        }),
{
    let fs = protobuf_fields(bytes)->Ok_0;
    lemma_payload_bound_le(fs, bytes.len());
    assert(fields_of(bytes) == Ok::<Seq<SpecWireField>, Seq<char>>(fs));
    reveal_with_fuel(pair_walk, 3);
}

/// The pair that a field of a `PF4MessageFields` holds: a length-delimited
/// field 1 holds a key-value pair; any other field is refused by its number.
pub open spec fn field_pair(f: SpecWireField) -> Result<SpecValue, SpecParseError> {
    if is_len_field(f, 1) {
        spec_parse_value(f.value->Len_0)
    } else {
        Err(SpecParseError::UnexpectedField(MessageKind::PF4MessageFields, f.field_number))
    }
}

proof fn lemma_values_walk(fs: Seq<SpecWireField>, i: int, acc: Seq<SpecValue>)
    requires
        0 <= i <= fs.len(),
    ensures
        values_walk(fs, i as nat, acc) is Ok <==> (forall|j: int|
            i <= j < fs.len() ==> (#[trigger] field_pair(fs[j])) is Ok),
        values_walk(fs, i as nat, acc) matches Ok(vs) ==> {
            &&& vs.len() == acc.len() + fs.len() - i
            &&& forall|k: int| 0 <= k < acc.len() ==> vs[k] == acc[k]
            &&& forall|j: int|
                i <= j < fs.len() ==> vs[acc.len() + j - i] == (#[trigger] field_pair(fs[j]))->Ok_0
        },
        values_walk(fs, i as nat, acc) matches Err(e) ==> exists|j: int|
            i <= j < fs.len() && (#[trigger] field_pair(fs[j])) == Err::<SpecValue, SpecParseError>(e)
                && forall|m: int| i <= m < j ==> (#[trigger] field_pair(fs[m])) is Ok,
    decreases fs.len() - i,
{
    if i < fs.len() {
        let f = fs[i];
        match field_pair(f) {
            Ok(v) => {
                lemma_values_walk(fs, i + 1, acc.push(v));
                assert(values_walk(fs, i as nat, acc) == values_walk(fs, (i + 1) as nat, acc.push(v)));
                if let Ok(vs) = values_walk(fs, i as nat, acc) {
                    assert(vs[acc.len() as int] == acc.push(v)[acc.len() as int]);
                    assert forall|j: int| i <= j < fs.len() implies vs[acc.len() + j - i] == (#[trigger] field_pair(
                        fs[j],
                    ))->Ok_0 by {
                        if j > i {
                            assert(vs[acc.push(v).len() + j - (i + 1)] == field_pair(fs[j])->Ok_0);
                        }
                    }
                    assert forall|k: int| 0 <= k < acc.len() implies vs[k] == acc[k] by {
                        assert(vs[k] == acc.push(v)[k]);
                    }
                }
                if let Err(e) = values_walk(fs, i as nat, acc) {
                    let j = choose|j: int|
                        i + 1 <= j < fs.len() && (#[trigger] field_pair(fs[j])) == Err::<
                            SpecValue,
                            SpecParseError,
                        >(e) && forall|m: int| i + 1 <= m < j ==> (#[trigger] field_pair(fs[m])) is Ok;
                    assert forall|m: int| i <= m < j implies (#[trigger] field_pair(fs[m])) is Ok by {}
                }
            },
            Err(e) => {
                assert(values_walk(fs, i as nat, acc) == Err::<Seq<SpecValue>, SpecParseError>(e));
                assert(field_pair(fs[i]) == Err::<SpecValue, SpecParseError>(e));
            },
        }
    }
}

/// A `PF4MessageFields` is the list of its pairs: it is accepted exactly when
/// every field is a length-delimited field 1 whose pair parses, and it then
/// holds those pairs in the fields' order (none for no fields); otherwise it is
/// refused with the error of its first field that is not such a pair.
pub proof fn law_values_are_their_pairs(bytes: Seq<u8>)
    requires
        protobuf_fields(bytes) matches Ok(fs) && payloads_shorter_than(fs, bytes.len()),
    ensures
        ({
            let fs = protobuf_fields(bytes)->Ok_0;
            &&& spec_parse_values(bytes) is Ok <==> (forall|j: int|
                0 <= j < fs.len() ==> (#[trigger] field_pair(fs[j])) is Ok)
            &&& spec_parse_values(bytes) matches Ok(vs) ==> vs.len() == fs.len() && forall|j: int|
                0 <= j < fs.len() ==> vs[j] == (#[trigger] field_pair(fs[j]))->Ok_0
            &&& spec_parse_values(bytes) matches Err(e) ==> exists|j: int|
                0 <= j < fs.len() && (#[trigger] field_pair(fs[j])) == Err::<SpecValue, SpecParseError>(
                    e,
                ) && forall|m: int| 0 <= m < j ==> (#[trigger] field_pair(fs[m])) is Ok
        }),
{
    let fs = protobuf_fields(bytes)->Ok_0;
    lemma_payload_bound_le(fs, bytes.len());
    assert(fields_of(bytes) == Ok::<Seq<SpecWireField>, Seq<char>>(fs));
    lemma_values_walk(fs, 0, Seq::empty());
}

// ---------------------------------------------------------------------------
// Laws of the dump
// ---------------------------------------------------------------------------

/// A length-delimited field whose payload is UTF-8 text without control
/// characters is shown as that text, whatever its characters: its line is the
/// indent, the field number, `: `, the text and a newline, and the lines of
/// the following fields come after it.
pub proof fn law_text_fields_are_shown_as_text(fs: Seq<SpecWireField>, i: nat, indent: nat)
    requires
        i < fs.len(),
        fs[i as int].value is Len,
        valid_utf8(fs[i as int].value->Len_0),
        free_of_controls(decode_utf8(fs[i as int].value->Len_0)),
    ensures
        dump_walk(fs, i, indent) == match dump_walk(fs, i + 1, indent) {
            Ok(rest) => Ok(
                spaces(indent) + decimal(fs[i as int].field_number as nat) + ": "@ + decode_utf8(
                    fs[i as int].value->Len_0,
                ) + "\n"@ + rest,
            ),
            Err(e) => Err(e),
        },
{
}

/// A message of one such text field dumps to that text between parentheses:
/// `(`, the field's line, `)`, each on its own line at the indent.
pub proof fn law_text_message_dump(bytes: Seq<u8>, indent: nat)
    requires
        protobuf_fields(bytes) matches Ok(fs) && payloads_shorter_than(fs, bytes.len()) && fs.len()
            == 1 && fs[0].value is Len && valid_utf8(fs[0].value->Len_0) && free_of_controls(
            decode_utf8(fs[0].value->Len_0),
        ),
    ensures
        ({
            let f = protobuf_fields(bytes)->Ok_0[0];
            spec_dump(bytes, indent) == Ok::<Seq<char>, SpecParseError>(
                spaces(indent) + "(\n"@ + spaces(indent) + decimal(f.field_number as nat) + ": "@
                    + decode_utf8(f.value->Len_0) + "\n"@ + spaces(indent) + ")\n"@,
            )
        }),
{
    let fs = protobuf_fields(bytes)->Ok_0;
    lemma_payload_bound_le(fs, bytes.len());
    assert(fields_of(bytes) == Ok::<Seq<SpecWireField>, Seq<char>>(fs));
    law_text_fields_are_shown_as_text(fs, 0, indent);
    assert(dump_walk(fs, 1, indent) == Ok::<Seq<char>, SpecParseError>(Seq::empty()));
    let f = fs[0];
    let line = spaces(indent) + decimal(f.field_number as nat) + ": "@ + decode_utf8(f.value->Len_0)
        + "\n"@;
    assert(line + Seq::<char>::empty() =~= line);
    assert(spaces(indent) + "(\n"@ + line + spaces(indent) + ")\n"@ =~= spaces(indent) + "(\n"@
        + spaces(indent) + decimal(f.field_number as nat) + ": "@ + decode_utf8(f.value->Len_0)
        + "\n"@ + spaces(indent) + ")\n"@);
}

// ---------------------------------------------------------------------------
// Laws of the symbols
// ---------------------------------------------------------------------------

/// A side symbol names the side it reads: `LEFT` the left side and `RIGHT` the
/// right one, for a turn, a fork and a destination alike; any other symbol
/// names no side.
pub proof fn law_side_symbols_name_their_side(s: Seq<char>)
    ensures
        "LEFT"@ != "RIGHT"@,
        symbol_value(KeyName::TurnSide, s) == if s == "LEFT"@ {
            Some(SpecValue::TurnSide(TurnSide::Left))
        } else if s == "RIGHT"@ {
            Some(SpecValue::TurnSide(TurnSide::Right))
        } else {
            None
        },
        symbol_value(KeyName::KeepSide, s) == if s == "LEFT"@ {
            Some(SpecValue::KeepSide(KeepSide::Left))
        } else if s == "RIGHT"@ {
            Some(SpecValue::KeepSide(KeepSide::Right))
        } else {
            None
        },
        symbol_value(KeyName::DestinationSide, s) == if s == "LEFT"@ {
            Some(SpecValue::DestinationSide(DestinationSide::Left))
        } else if s == "RIGHT"@ {
            Some(SpecValue::DestinationSide(DestinationSide::Right))
        } else {
            None
        },
{
    reveal_strlit("LEFT");
    reveal_strlit("RIGHT");
    assert("LEFT"@.len() != "RIGHT"@.len());
}

/// Different side symbols name different sides.
pub proof fn law_side_symbols_differ(s1: Seq<char>, s2: Seq<char>)
    requires
        symbol_value(KeyName::DestinationSide, s1) is Some,
        symbol_value(KeyName::DestinationSide, s1) == symbol_value(KeyName::DestinationSide, s2),
    ensures
        s1 == s2,
{
    law_side_symbols_name_their_side(s1);
    law_side_symbols_name_their_side(s2);
}

/// A sharpness symbol names the sharpness it reads: `SLIGHT`, `NORMAL` and
/// `SHARP`; any other symbol names none.
pub proof fn law_sharpness_symbols_name_their_sharpness(s: Seq<char>)
    ensures
        symbol_value(KeyName::TurnSharpness, s) == if s == "SLIGHT"@ {
            Some(SpecValue::TurnSharpness(TurnSharpness::Slight))
        } else if s == "NORMAL"@ {
            Some(SpecValue::TurnSharpness(TurnSharpness::Normal))
        } else if s == "SHARP"@ {
            Some(SpecValue::TurnSharpness(TurnSharpness::Sharp))
        } else {
            None
        },
        "SLIGHT"@ != "NORMAL"@ && "SLIGHT"@ != "SHARP"@ && "NORMAL"@ != "SHARP"@,
{
    reveal_strlit("SLIGHT");
    reveal_strlit("NORMAL");
    reveal_strlit("SHARP");
    assert("SLIGHT"@[0] != "NORMAL"@[0]);
    assert("SLIGHT"@.len() != "SHARP"@.len());
    assert("NORMAL"@.len() != "SHARP"@.len());
}

proof fn lemma_lane_symbol_lengths()
    ensures
        "USE_LEFT_LANE"@.len() == 13 && "USE_LEFT_2_LANES"@.len() == 16 && "USE_RIGHT_LANE"@.len() == 14 && "USE_RIGHT_2_LANES"@.len() == 17 && "USE_SECOND_FROM_RIGHT"@.len() == 21 && "USE_MIDDLE_LANE"@.len() == 15 && "USE_ANY_LANE"@.len() == 12,
{
    reveal_strlit("USE_LEFT_LANE");
    reveal_strlit("USE_LEFT_2_LANES");
    reveal_strlit("USE_RIGHT_LANE");
    reveal_strlit("USE_RIGHT_2_LANES");
    reveal_strlit("USE_SECOND_FROM_RIGHT");
    reveal_strlit("USE_MIDDLE_LANE");
    reveal_strlit("USE_ANY_LANE");
}

/// A lane symbol names the lane it reads, each of the seven its own lane; any
/// other symbol names none.
pub proof fn law_lane_symbols_name_their_lane(s: Seq<char>)
    ensures
        symbol_value(KeyName::LaneGuidanceType, s) == match lane_of(s) {
            Some(l) => Some(SpecValue::LaneGuidance(l)),
            None => None,
        },
        lane_of(s) == if s == "USE_LEFT_LANE"@ {
            Some(LaneGuidance::LeftLane)
        } else if s == "USE_LEFT_2_LANES"@ {
            Some(LaneGuidance::Left2Lanes)
        } else if s == "USE_RIGHT_LANE"@ {
            Some(LaneGuidance::RightLane)
        } else if s == "USE_RIGHT_2_LANES"@ {
            Some(LaneGuidance::Right2Lanes)
        } else if s == "USE_SECOND_FROM_RIGHT"@ {
            Some(LaneGuidance::SecondFromRight)
        } else if s == "USE_MIDDLE_LANE"@ {
            Some(LaneGuidance::MiddleLane)
        } else if s == "USE_ANY_LANE"@ {
            Some(LaneGuidance::AnyLane)
        } else {
            None
        },
{
    lemma_lane_symbol_lengths();
    reveal_strlit("USE_LEFT_LANE");
    reveal_strlit("USE_LEFT_2_LANES");
    reveal_strlit("USE_RIGHT_LANE");
    reveal_strlit("USE_RIGHT_2_LANES");
    reveal_strlit("USE_SECOND_FROM_RIGHT");
    reveal_strlit("USE_MIDDLE_LANE");
    reveal_strlit("USE_ANY_LANE");
}

/// Different lane symbols name different lanes.
pub proof fn law_lane_symbols_differ(s1: Seq<char>, s2: Seq<char>)
    requires
        lane_of(s1) is Some,
        lane_of(s1) == lane_of(s2),
    ensures
        s1 == s2,
{
    law_lane_symbols_name_their_lane(s1);
    lemma_lane_symbol_lengths();
    law_lane_symbols_name_their_lane(s2);
    reveal_strlit("USE_LEFT_LANE");
    reveal_strlit("USE_LEFT_2_LANES");
    reveal_strlit("USE_RIGHT_LANE");
    reveal_strlit("USE_RIGHT_2_LANES");
    reveal_strlit("USE_SECOND_FROM_RIGHT");
    reveal_strlit("USE_MIDDLE_LANE");
    reveal_strlit("USE_ANY_LANE");
}

/// A unit symbol of a `nlp_generation.UnitType` enum names its unit.
pub proof fn law_unit_symbols_name_their_unit(s: Seq<char>)
    ensures
        unit_of(s) == if s == "UNIT_METERS"@ {
            Some(DistanceUnit::Meter)
        } else if s == "UNIT_KILOMETERS"@ {
            Some(DistanceUnit::Kilometer)
        } else if s == "UNIT_MILES"@ {
            Some(DistanceUnit::Mile)
        } else {
            None
        },
        "UNIT_METERS"@ != "UNIT_KILOMETERS"@ && "UNIT_METERS"@ != "UNIT_MILES"@
            && "UNIT_KILOMETERS"@ != "UNIT_MILES"@,
{
    reveal_strlit("UNIT_METERS");
    reveal_strlit("UNIT_KILOMETERS");
    reveal_strlit("UNIT_MILES");
    assert("UNIT_METERS"@.len() != "UNIT_KILOMETERS"@.len());
    assert("UNIT_METERS"@.len() != "UNIT_MILES"@.len());
    assert("UNIT_KILOMETERS"@.len() != "UNIT_MILES"@.len());
}

/// The keys of the symbols are read as what they name.
pub proof fn law_symbol_keys(k: Seq<char>)
    ensures
        key_of("turn_sharpness"@) == Some(KeyName::TurnSharpness),
        key_of("turn_side"@) == Some(KeyName::TurnSide),
        key_of("keep_side"@) == Some(KeyName::KeepSide),
        key_of("destination_side"@) == Some(KeyName::DestinationSide),
        key_of("lane_guidance_type"@) == Some(KeyName::LaneGuidanceType),
        key_of("distance_unit"@) == Some(KeyName::DistanceUnit),
{
    reveal_strlit("distance");
    reveal_strlit("distance_unit");
    reveal_strlit("distance_override_type");
    reveal_strlit("turn_sharpness");
    reveal_strlit("turn_side");
    reveal_strlit("keep_side");
    reveal_strlit("destination_side");
    reveal_strlit("lane_guidance_type");
    let keys = seq![
        "distance"@,
        "distance_unit"@,
        "distance_override_type"@,
        "turn_sharpness"@,
        "turn_side"@,
        "keep_side"@,
        "destination_side"@,
        "lane_guidance_type"@,
    ];
    assert(keys[0].len() == 8 && keys[1].len() == 13 && keys[2].len() == 22 && keys[3].len() == 14
        && keys[4].len() == 9 && keys[5].len() == 9 && keys[6].len() == 16 && keys[7].len() == 18);
    assert(keys[4][0] != keys[5][0]);
}

proof fn lemma_command_texts()
    ensures
        "pf_straightstep"@.len() == 15 && "pf_straightstep"@[3] == 's',
        "pf_turnstep"@.len() == 11 && "pf_turnstep"@[3] == 't',
        "pf_uturnstep"@.len() == 12 && "pf_uturnstep"@[3] == 'u',
        "pf_onrampstep"@.len() == 13 && "pf_onrampstep"@[3] == 'o',
        "pf_offrampstep"@.len() == 14 && "pf_offrampstep"@[3] == 'o',
        "pf_keeporforkstep"@.len() == 17 && "pf_keeporforkstep"@[3] == 'k',
        "pf_mergestep"@.len() == 12 && "pf_mergestep"@[3] == 'm',
        "pf_interchangestep"@.len() == 18 && "pf_interchangestep"@[3] == 'i',
        "pf_destinationstep_prepare"@.len() == 26 && "pf_destinationstep_prepare"@[3] == 'd',
        "pf_destinationstep_act"@.len() == 22 && "pf_destinationstep_act"@[3] == 'd',
        "continue_for_distance"@.len() == 21 && "continue_for_distance"@[3] == 't',
        "prepare_distance_message"@.len() == 24 && "prepare_distance_message"@[3] == 'p',
        "combine_merged_guidance_events"@.len() == 30 && "combine_merged_guidance_events"@[3] == 'b',
{
    reveal_strlit("pf_straightstep");
    reveal_strlit("pf_turnstep");
    reveal_strlit("pf_uturnstep");
    reveal_strlit("pf_onrampstep");
    reveal_strlit("pf_offrampstep");
    reveal_strlit("pf_keeporforkstep");
    reveal_strlit("pf_mergestep");
    reveal_strlit("pf_interchangestep");
    reveal_strlit("pf_destinationstep_prepare");
    reveal_strlit("pf_destinationstep_act");
    reveal_strlit("continue_for_distance");
    reveal_strlit("prepare_distance_message");
    reveal_strlit("combine_merged_guidance_events");
}

proof fn lemma_key_texts()
    ensures
        "distance"@.len() == 8 && "distance"@[0] == 'd',
        "distance_unit"@.len() == 13 && "distance_unit"@[0] == 'd',
        "distance_override_type"@.len() == 22 && "distance_override_type"@[0] == 'd',
        "turn_sharpness"@.len() == 14 && "turn_sharpness"@[0] == 't',
        "turn_side"@.len() == 9 && "turn_side"@[0] == 't',
        "keep_side"@.len() == 9 && "keep_side"@[0] == 'k',
        "destination_side"@.len() == 16 && "destination_side"@[0] == 'd',
        "lane_guidance_type"@.len() == 18 && "lane_guidance_type"@[0] == 'l',
        "traffic_light"@.len() == 13 && "traffic_light"@[0] == 't',
        "stop_sign"@.len() == 9 && "stop_sign"@[0] == 's',
        "exit_name"@.len() == 9 && "exit_name"@[0] == 'e',
        "exits"@.len() == 5 && "exits"@[0] == 'e',
        "maneuver"@.len() == 8 && "maneuver"@[0] == 'm',
        "key"@.len() == 3 && "key"@[0] == 'k',
        "args"@.len() == 4 && "args"@[0] == 'a',
        "first_step"@.len() == 10 && "first_step"@[0] == 'f',
        "second_step"@.len() == 11 && "second_step"@[0] == 's',
        "sign_direct_name"@.len() == 16 && "sign_direct_name"@[0] == 's',
        "sign_indirect_name"@.len() == 18 && "sign_indirect_name"@[0] == 's',
        "routes"@.len() == 6 && "routes"@[0] == 'r',
        "intersection_name"@.len() == 17 && "intersection_name"@[0] == 'i',
        "interchange_name"@.len() == 16 && "interchange_name"@[0] == 'i',
{
    reveal_strlit("distance");
    reveal_strlit("distance_unit");
    reveal_strlit("distance_override_type");
    reveal_strlit("turn_sharpness");
    reveal_strlit("turn_side");
    reveal_strlit("keep_side");
    reveal_strlit("destination_side");
    reveal_strlit("lane_guidance_type");
    reveal_strlit("traffic_light");
    reveal_strlit("stop_sign");
    reveal_strlit("exit_name");
    reveal_strlit("exits");
    reveal_strlit("maneuver");
    reveal_strlit("key");
    reveal_strlit("args");
    reveal_strlit("first_step");
    reveal_strlit("second_step");
    reveal_strlit("sign_direct_name");
    reveal_strlit("sign_indirect_name");
    reveal_strlit("routes");
    reveal_strlit("intersection_name");
    reveal_strlit("interchange_name");
}

/// Every command is read from its own name: the name that error reports give a
/// command is the value that names it.
pub proof fn law_commands_are_read_from_their_names(c: Command)
    ensures
        command_of(command_text(c)) == Some(c),
{
    lemma_command_texts();
}

/// Every key is read from its own name: the name that error reports give a key
/// is the key text that names it.
pub proof fn law_keys_are_read_from_their_names(k: KeyName)
    ensures
        key_of(key_text(k)) == Some(k),
{
    lemma_key_texts();
}

/// A key-value pair of a side or lane key with its symbol gives the side or
/// lane that the symbol names: `destination_side = RIGHT` the right side,
/// `lane_guidance_type = USE_RIGHT_LANE` the right lane, and so on.
pub proof fn law_symbol_pairs_give_what_they_name(s: Seq<char>)
    ensures
        spec_map_value(Some("destination_side"@), SpecRawValue::SymbolValue(s)) == if s == "LEFT"@ {
            Ok(SpecValue::DestinationSide(DestinationSide::Left))
        } else if s == "RIGHT"@ {
            Ok(SpecValue::DestinationSide(DestinationSide::Right))
        } else {
            Err(SpecParseError::UnexpectedSymbol(KeyName::DestinationSide, s))
        },
        spec_map_value(Some("turn_side"@), SpecRawValue::SymbolValue(s)) == if s == "LEFT"@ {
            Ok(SpecValue::TurnSide(TurnSide::Left))
        } else if s == "RIGHT"@ {
            Ok(SpecValue::TurnSide(TurnSide::Right))
        } else {
            Err(SpecParseError::UnexpectedSymbol(KeyName::TurnSide, s))
        },
        spec_map_value(Some("lane_guidance_type"@), SpecRawValue::SymbolValue(s)) == match lane_of(s) {
            Some(l) => Ok(SpecValue::LaneGuidance(l)),
            None => Err(SpecParseError::UnexpectedSymbol(KeyName::LaneGuidanceType, s)),
        },
        s == "USE_RIGHT_LANE"@ ==> spec_map_value(
            Some("lane_guidance_type"@),
            SpecRawValue::SymbolValue(s),
        ) == Ok::<SpecValue, SpecParseError>(SpecValue::LaneGuidance(LaneGuidance::RightLane)),
{
    law_symbol_keys(s);
    law_side_symbols_name_their_side(s);
    law_lane_symbols_name_their_lane(s);
    lemma_lane_symbol_lengths();
}

/// A destination step's only argument, a side, is the side of the guidance;
/// a straight step's only argument, a lane, is the lane of the guidance.
pub proof fn law_single_argument_steps(command: SpecEnum, d: DestinationSide, l: LaneGuidance)
    ensures
        (command.enum_type == "pathfinder4"@ && command.value == "pf_destinationstep_prepare"@)
            ==> spec_map_guidance(command, seq![SpecValue::DestinationSide(d)]) == Ok::<
            SpecGuidance,
            SpecParseError,
        >(SpecGuidance::DestinationStepPrepare(Some(d))),
        (command.enum_type == "pathfinder4"@ && command.value == "pf_straightstep"@)
            ==> spec_map_guidance(command, seq![SpecValue::LaneGuidance(l)]) == Ok::<
            SpecGuidance,
            SpecParseError,
        >(SpecGuidance::StraightStep(Some(l))),
{
    reveal_strlit("pf_straightstep");
    reveal_strlit("pf_turnstep");
    reveal_strlit("pf_uturnstep");
    reveal_strlit("pf_onrampstep");
    reveal_strlit("pf_offrampstep");
    reveal_strlit("pf_keeporforkstep");
    reveal_strlit("pf_mergestep");
    reveal_strlit("pf_interchangestep");
    reveal_strlit("pf_destinationstep_prepare");
    let names = seq![
        "pf_straightstep"@,
        "pf_turnstep"@,
        "pf_uturnstep"@,
        "pf_onrampstep"@,
        "pf_offrampstep"@,
        "pf_keeporforkstep"@,
        "pf_mergestep"@,
        "pf_interchangestep"@,
        "pf_destinationstep_prepare"@,
    ];
    assert(names[0].len() == 15 && names[1].len() == 11 && names[2].len() == 12 && names[3].len() == 13
        && names[4].len() == 14 && names[5].len() == 17 && names[6].len() == 12 && names[7].len() == 18
        && names[8].len() == 26);
    if command.enum_type == "pathfinder4"@ && command.value == "pf_destinationstep_prepare"@ {
        assert(command_of(command.value) == Some(Command::DestinationStepPrepare));
    }
    let a = seq![SpecValue::DestinationSide(d)];
    let b = seq![SpecValue::LaneGuidance(l)];
    assert(a.drop_first().len() == 0);
    assert(b.drop_first().len() == 0);
    assert(a.drop_last().len() == 0);
    assert(b.drop_last().len() == 0);
    reveal_with_fuel(first_refused, 2);
    reveal_with_fuel(last_of_kind, 2);
}

// ---------------------------------------------------------------------------
// Error reports
// ---------------------------------------------------------------------------

/// The name of a message type in error reports.
pub open spec fn kind_text(x: MessageKind) -> Seq<char> {
    match x {
        MessageKind::Envelope => "envelope"@,
        MessageKind::PF4Message => "PF4Message"@,
        MessageKind::PF4MessageFields => "PF4MessageFields"@,
        MessageKind::PF4KeyValue => "PF4KeyValue"@,
        MessageKind::PF4Enum => "PF4Enum"@,
        MessageKind::PF4NLGData => "PF4NLGData"@,
        MessageKind::PF4Command => "PF4Command"@,
    }
}

fn kind_label(x: MessageKind) -> (r: &'static str)
    ensures
        r@ == kind_text(x),
{
    match x {
        MessageKind::Envelope => "envelope",
        MessageKind::PF4Message => "PF4Message",
        MessageKind::PF4MessageFields => "PF4MessageFields",
        MessageKind::PF4KeyValue => "PF4KeyValue",
        MessageKind::PF4Enum => "PF4Enum",
        MessageKind::PF4NLGData => "PF4NLGData",
        MessageKind::PF4Command => "PF4Command",
    }
}

/// The report of a required field that a message lacks.
pub open spec fn missing_field_text(x: MessageKind) -> Seq<char> {
    match x {
        MessageKind::Envelope => "Missing required field 2 in StructuredMessage"@,
        MessageKind::PF4Message => "Missing required fields in PF4Message"@,
        MessageKind::PF4MessageFields => "Missing required fields in PF4MessageFields"@,
        MessageKind::PF4KeyValue => "Missing value in PF4KeyValue"@,
        MessageKind::PF4Enum => "Missing required fields in PF4Enum"@,
        MessageKind::PF4NLGData => "Missing required fields in PF4NLGData"@,
        MessageKind::PF4Command => "Missing required field 3 in PF4Command"@,
    }
}

fn missing_field_label(x: MessageKind) -> (r: &'static str)
    ensures
        r@ == missing_field_text(x),
{
    match x {
        MessageKind::Envelope => "Missing required field 2 in StructuredMessage",
        MessageKind::PF4Message => "Missing required fields in PF4Message",
        MessageKind::PF4MessageFields => "Missing required fields in PF4MessageFields",
        MessageKind::PF4KeyValue => "Missing value in PF4KeyValue",
        MessageKind::PF4Enum => "Missing required fields in PF4Enum",
        MessageKind::PF4NLGData => "Missing required fields in PF4NLGData",
        MessageKind::PF4Command => "Missing required field 3 in PF4Command",
    }
}

/// The command value that names a command.
pub open spec fn command_text(x: Command) -> Seq<char> {
    match x {
        Command::StraightStep => "pf_straightstep"@,
        Command::TurnStep => "pf_turnstep"@,
        Command::UTurnStep => "pf_uturnstep"@,
        Command::OnRampStep => "pf_onrampstep"@,
        Command::OffRampStep => "pf_offrampstep"@,
        Command::KeepOrForkStep => "pf_keeporforkstep"@,
        Command::MergeStep => "pf_mergestep"@,
        Command::InterchangeStep => "pf_interchangestep"@,
        Command::DestinationStepPrepare => "pf_destinationstep_prepare"@,
        Command::DestinationStepAct => "pf_destinationstep_act"@,
        Command::ContinueForDistance => "continue_for_distance"@,
        Command::PrepareDistanceMessage => "prepare_distance_message"@,
        Command::CombineMergedGuidanceEvents => "combine_merged_guidance_events"@,
    }
}

fn command_label(x: Command) -> (r: &'static str)
    ensures
        r@ == command_text(x),
{
    match x {
        Command::StraightStep => "pf_straightstep",
        Command::TurnStep => "pf_turnstep",
        Command::UTurnStep => "pf_uturnstep",
        Command::OnRampStep => "pf_onrampstep",
        Command::OffRampStep => "pf_offrampstep",
        Command::KeepOrForkStep => "pf_keeporforkstep",
        Command::MergeStep => "pf_mergestep",
        Command::InterchangeStep => "pf_interchangestep",
        Command::DestinationStepPrepare => "pf_destinationstep_prepare",
        Command::DestinationStepAct => "pf_destinationstep_act",
        Command::ContinueForDistance => "continue_for_distance",
        Command::PrepareDistanceMessage => "prepare_distance_message",
        Command::CombineMergedGuidanceEvents => "combine_merged_guidance_events",
    }
}

/// The report of a required argument that a command lacks.
pub open spec fn missing_args_text(x: Command) -> Seq<char> {
    match x {
        Command::StraightStep => "Missing field in pf_straightstep"@,
        Command::TurnStep => "missing sharpness or side field in pf_turnstep"@,
        Command::UTurnStep => "Missing field in pf_uturnstep"@,
        Command::OnRampStep => "Missing field in pf_onrampstep"@,
        Command::OffRampStep => "Missing field in pf_offrampstep"@,
        Command::KeepOrForkStep => "Missing keep field in pf_keeporforkstep"@,
        Command::MergeStep => "Missing field in pf_mergestep"@,
        Command::InterchangeStep => "Missing field in pf_interchangestep"@,
        Command::DestinationStepPrepare => "Missing field in pf_destinationstep_prepare"@,
        Command::DestinationStepAct => "Missing field in pf_destinationstep_act"@,
        Command::ContinueForDistance => "Missing field in continue_for_distance"@,
        Command::PrepareDistanceMessage => "Missing field in prepare_distance_message"@,
        Command::CombineMergedGuidanceEvents => "Missing field in combine_merged_guidance_events"@,
    }
}

fn missing_args_label(x: Command) -> (r: &'static str)
    ensures
        r@ == missing_args_text(x),
{
    match x {
        Command::StraightStep => "Missing field in pf_straightstep",
        Command::TurnStep => "missing sharpness or side field in pf_turnstep",
        Command::UTurnStep => "Missing field in pf_uturnstep",
        Command::OnRampStep => "Missing field in pf_onrampstep",
        Command::OffRampStep => "Missing field in pf_offrampstep",
        Command::KeepOrForkStep => "Missing keep field in pf_keeporforkstep",
        Command::MergeStep => "Missing field in pf_mergestep",
        Command::InterchangeStep => "Missing field in pf_interchangestep",
        Command::DestinationStepPrepare => "Missing field in pf_destinationstep_prepare",
        Command::DestinationStepAct => "Missing field in pf_destinationstep_act",
        Command::ContinueForDistance => "Missing field in continue_for_distance",
        Command::PrepareDistanceMessage => "Missing field in prepare_distance_message",
        Command::CombineMergedGuidanceEvents => "Missing field in combine_merged_guidance_events",
    }
}

/// The text of a key.
pub open spec fn key_text(x: KeyName) -> Seq<char> {
    match x {
        KeyName::Distance => "distance"@,
        KeyName::DistanceUnit => "distance_unit"@,
        KeyName::DistanceOverrideType => "distance_override_type"@,
        KeyName::TurnSharpness => "turn_sharpness"@,
        KeyName::TurnSide => "turn_side"@,
        KeyName::KeepSide => "keep_side"@,
        KeyName::DestinationSide => "destination_side"@,
        KeyName::LaneGuidanceType => "lane_guidance_type"@,
        KeyName::TrafficLight => "traffic_light"@,
        KeyName::StopSign => "stop_sign"@,
        KeyName::ExitName => "exit_name"@,
        KeyName::Exits => "exits"@,
        KeyName::Maneuver => "maneuver"@,
        KeyName::Key => "key"@,
        KeyName::Args => "args"@,
        KeyName::FirstStep => "first_step"@,
        KeyName::SecondStep => "second_step"@,
        KeyName::SignDirectName => "sign_direct_name"@,
        KeyName::SignIndirectName => "sign_indirect_name"@,
        KeyName::Routes => "routes"@,
        KeyName::IntersectionName => "intersection_name"@,
        KeyName::InterchangeName => "interchange_name"@,
    }
}

fn key_label(x: KeyName) -> (r: &'static str)
    ensures
        r@ == key_text(x),
{
    match x {
        KeyName::Distance => "distance",
        KeyName::DistanceUnit => "distance_unit",
        KeyName::DistanceOverrideType => "distance_override_type",
        KeyName::TurnSharpness => "turn_sharpness",
        KeyName::TurnSide => "turn_side",
        KeyName::KeepSide => "keep_side",
        KeyName::DestinationSide => "destination_side",
        KeyName::LaneGuidanceType => "lane_guidance_type",
        KeyName::TrafficLight => "traffic_light",
        KeyName::StopSign => "stop_sign",
        KeyName::ExitName => "exit_name",
        KeyName::Exits => "exits",
        KeyName::Maneuver => "maneuver",
        KeyName::Key => "key",
        KeyName::Args => "args",
        KeyName::FirstStep => "first_step",
        KeyName::SecondStep => "second_step",
        KeyName::SignDirectName => "sign_direct_name",
        KeyName::SignIndirectName => "sign_indirect_name",
        KeyName::Routes => "routes",
        KeyName::IntersectionName => "intersection_name",
        KeyName::InterchangeName => "interchange_name",
    }
}

/// The name under which a key's unexpected symbol is reported.
pub open spec fn symbol_field_text(x: KeyName) -> Seq<char> {
    match x {
        KeyName::Distance => "distance"@,
        KeyName::DistanceUnit => "distance_unit"@,
        KeyName::DistanceOverrideType => "distance_override_type"@,
        KeyName::TurnSharpness => "turn_sharpness"@,
        KeyName::TurnSide => "turn_side"@,
        KeyName::KeepSide => "keep_side"@,
        KeyName::DestinationSide => "destination_side"@,
        KeyName::LaneGuidanceType => "lane_guidance"@,
        KeyName::TrafficLight => "traffic_light"@,
        KeyName::StopSign => "stop_sign"@,
        KeyName::ExitName => "exit_name"@,
        KeyName::Exits => "exits"@,
        KeyName::Maneuver => "maneuver"@,
        KeyName::Key => "key"@,
        KeyName::Args => "args"@,
        KeyName::FirstStep => "first_step"@,
        KeyName::SecondStep => "second_step"@,
        KeyName::SignDirectName => "sign_direct_name"@,
        KeyName::SignIndirectName => "sign_indirect_name"@,
        KeyName::Routes => "routes"@,
        KeyName::IntersectionName => "intersection_name"@,
        KeyName::InterchangeName => "interchange_name"@,
    }
}

fn symbol_field_label(x: KeyName) -> (r: &'static str)
    ensures
        r@ == symbol_field_text(x),
{
    match x {
        KeyName::Distance => "distance",
        KeyName::DistanceUnit => "distance_unit",
        KeyName::DistanceOverrideType => "distance_override_type",
        KeyName::TurnSharpness => "turn_sharpness",
        KeyName::TurnSide => "turn_side",
        KeyName::KeepSide => "keep_side",
        KeyName::DestinationSide => "destination_side",
        KeyName::LaneGuidanceType => "lane_guidance",
        KeyName::TrafficLight => "traffic_light",
        KeyName::StopSign => "stop_sign",
        KeyName::ExitName => "exit_name",
        KeyName::Exits => "exits",
        KeyName::Maneuver => "maneuver",
        KeyName::Key => "key",
        KeyName::Args => "args",
        KeyName::FirstStep => "first_step",
        KeyName::SecondStep => "second_step",
        KeyName::SignDirectName => "sign_direct_name",
        KeyName::SignIndirectName => "sign_indirect_name",
        KeyName::Routes => "routes",
        KeyName::IntersectionName => "intersection_name",
        KeyName::InterchangeName => "interchange_name",
    }
}

/// The report of an error that carries no value of the message, in words.
pub open spec fn error_message(e: SpecParseError) -> Seq<char> {
    match e {
        SpecParseError::Wire(t) => "Failed to parse protobuf fields: "@ + t,
        SpecParseError::InvalidUtf8(t) => "invalid utf-8 sequence: "@ + t,
        SpecParseError::UnexpectedField(k, n) => "Unexpected field number "@ + decimal(n as nat) + " in "@ + kind_text(k),
        SpecParseError::MissingField(k) => missing_field_text(k),
        SpecParseError::DuplicateKey => "Duplicate field 1 in PF4KeyValue"@,
        SpecParseError::MissingKey => "Missing key in PF4KeyValue"@,
        SpecParseError::MissingArgs(c) => missing_args_text(c),
        SpecParseError::MismatchedTurn => "mismatched sharpness/side in pf_onrampstep"@,
        SpecParseError::UnknownCommandValue(v) => "Unknown command value "@ + v,
        SpecParseError::UnknownCommandType(t) => "Unknown command type "@ + t,
        SpecParseError::UnexpectedSymbol(k, v) => "Unexpected value for field '"@ + symbol_field_text(k) + "': "@ + v,
        SpecParseError::MissingItems(k) => "Missing values in "@ + key_text(k),
        _ => Seq::empty(),
    }
}

/// How a field value of the decoder is shown: its variant with its bytes.
pub open spec fn field_value_form(v: SpecWireValue) -> Seq<char> {
    match v {
        SpecWireValue::Len(p) => "Len("@ + byte_list(p) + ")"@,
        _ => value_text(v),
    }
}

/// The report of an error: text, with a slot for each number of a value that
/// it shows.
pub open spec fn error_pieces(e: SpecParseError) -> Seq<SpecPiece> {
    match e {
        SpecParseError::UnexpectedKeyType(v) => txt(
            "Unexpected field type for field 1 in PF4KeyValue: "@ + field_value_form(v),
        ),
        SpecParseError::DuplicateValue(r) => txt("Duplicate value field in PF4KeyValue: Some("@)
            + raw_form(r) + txt(")"@),
        SpecParseError::UnknownArgs(c, v) => txt("unknown args for "@ + command_text(c) + " "@)
            + value_form(v),
        SpecParseError::UnexpectedArgs(vs) => txt("unknown args for pf_destinationstep_act "@)
            + list_form(vs),
        SpecParseError::UnknownItem(k, v) => txt("Unknown "@ + key_text(k) + ": "@) + value_form(v),
        SpecParseError::UnknownStep(k, vs) => txt("Unknown "@ + key_text(k) + ": "@) + list_form(vs),
        SpecParseError::UnknownStepParts(k, a, b) => txt("Unknown "@ + key_text(k) + ": "@)
            + value_form(a) + txt(" "@) + value_form(b),
        SpecParseError::UnknownKeyValue(k, r) => txt("Unknown key-value pair: "@ + k + " = "@)
            + raw_form(r),
        _ => txt(error_message(e)),
    }
}

fn field_value_text(v: &WireValue) -> (r: String)
    ensures
        r@ == field_value_form(v@),
{
    match v {
        WireValue::Len(p) => {
            let mut r = String::from_str("Len(");
            r.append(byte_list_text(p.as_slice()).as_str());
            r.append(")");
            r
        },
        _ => value_text_of(v),
    }
}

impl ParseError {
    /// The report of this error: text, with a slot ([`TextPiece::Number`]) for
    /// each number of a value that it shows, in order.
    pub fn message_pieces(&self) -> (r: Vec<TextPiece>)
        ensures
            pieces_view(r@) == error_pieces(self@),
    {
        let mut out: Vec<TextPiece> = Vec::new();
        let ghost start = pieces_view(out@);
        assert(start =~= Seq::<SpecPiece>::empty());
        match self {
            ParseError::UnexpectedKeyType(v) => {
                let mut t = String::from_str("Unexpected field type for field 1 in PF4KeyValue: ");
                t.append(field_value_text(v).as_str());
                push_text(&mut out, t);
            },
            ParseError::DuplicateValue(r) => {
                push_str(&mut out, "Duplicate value field in PF4KeyValue: Some(");
                write_raw(r, &mut out);
                push_str(&mut out, ")");
            },
            ParseError::UnknownArgs(c, v) => {
                let mut t = String::from_str("unknown args for ");
                t.append(command_label(*c));
                t.append(" ");
                push_text(&mut out, t);
                write_value(v, &mut out);
            },
            ParseError::UnexpectedArgs(vs) => {
                push_str(&mut out, "unknown args for pf_destinationstep_act ");
                write_list(vs, &mut out);
            },
            ParseError::UnknownItem(k, v) => {
                push_text(&mut out, unknown_prefix(*k));
                write_value(v, &mut out);
            },
            ParseError::UnknownStep(k, vs) => {
                push_text(&mut out, unknown_prefix(*k));
                write_list(vs, &mut out);
            },
            ParseError::UnknownStepParts(k, a, b) => {
                push_text(&mut out, unknown_prefix(*k));
                write_value(a, &mut out);
                push_str(&mut out, " ");
                write_value(b, &mut out);
            },
            ParseError::UnknownKeyValue(k, r) => {
                let mut t = String::from_str("Unknown key-value pair: ");
                t.append(k.as_str());
                t.append(" = ");
                push_text(&mut out, t);
                write_raw(r, &mut out);
            },
            _ => {
                push_text(&mut out, self.plain_message());
            },
        }
        assert(pieces_view(out@) =~= error_pieces(self@));
        out
    }

    /// The report of an error that carries no value of the message.
    fn plain_message(&self) -> (r: String)
        requires
            !(self is UnexpectedKeyType || self is DuplicateValue || self is UnknownArgs
                || self is UnexpectedArgs || self is UnknownItem || self is UnknownStep
                || self is UnknownStepParts || self is UnknownKeyValue),
        ensures
            r@ == error_message(self@),
    {
        let mut out = String::new();
        match self {
            ParseError::Wire(t) => {
                out.append("Failed to parse protobuf fields: ");
                out.append(t.as_str());
            },
            ParseError::InvalidUtf8(t) => {
                out.append("invalid utf-8 sequence: ");
                out.append(t.as_str());
            },
            ParseError::UnexpectedField(k, n) => {
                out.append("Unexpected field number ");
                out.append(decimal_text(*n as u64).as_str());
                out.append(" in ");
                out.append(kind_label(*k));
            },
            ParseError::MissingField(k) => out.append(missing_field_label(*k)),
            ParseError::DuplicateKey => out.append("Duplicate field 1 in PF4KeyValue"),
            ParseError::MissingKey => out.append("Missing key in PF4KeyValue"),
            ParseError::MissingArgs(c) => out.append(missing_args_label(*c)),
            ParseError::MismatchedTurn => out.append("mismatched sharpness/side in pf_onrampstep"),
            ParseError::UnknownCommandValue(v) => {
                out.append("Unknown command value ");
                out.append(v.as_str());
            },
            ParseError::UnknownCommandType(t) => {
                out.append("Unknown command type ");
                out.append(t.as_str());
            },
            ParseError::UnexpectedSymbol(k, v) => {
                out.append("Unexpected value for field '");
                out.append(symbol_field_label(*k));
                out.append("': ");
                out.append(v.as_str());
            },
            ParseError::MissingItems(k) => {
                out.append("Missing values in ");
                out.append(key_label(*k));
            },
            _ => {},
        }
        out
    }
}

fn unknown_prefix(k: KeyName) -> (r: String)
    ensures
        r@ == "Unknown "@ + key_text(k) + ": "@,
{
    let mut t = String::from_str("Unknown ");
    t.append(key_label(k));
    t.append(": ");
    t
}

} // verus!
