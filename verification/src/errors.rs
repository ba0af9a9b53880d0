//! Messages for errors raised by the Lua VM.

use vstd::prelude::*;
use vstd::string::StringExecFns;
use vstd::utf8::{decode_utf8, valid_utf8};

use lua_types::value::LuaValue;
use lua_types::LuaError;

verus! {

/// An error raised by the lua-rs VM (`lua_types::LuaError`), carried through opaquely.
#[verifier::external_type_specification]
#[verifier::external_body]
pub struct ExLuaError(LuaError);

/// The text `String::from_utf8_lossy` makes of a byte string.
pub uninterp spec fn lossy_utf8_text(bytes: Seq<u8>) -> Seq<char>;

/// `String::from_utf8_lossy` (std), turned into an owned `String`.
/// Trusted: the result is [`lossy_utf8_text`] of the bytes, and for bytes that are valid
/// UTF-8 it is their decoding, as std documents; the replacement of invalid sequences by
/// U+FFFD is not stated.
#[verifier::external_body]
fn utf8_lossy(bytes: &Vec<u8>) -> (s: String)
    ensures
        s@ == lossy_utf8_text(bytes@),
        valid_utf8(bytes@) ==> s@ == decode_utf8(bytes@),
{
    String::from_utf8_lossy(bytes).into_owned()
}

/// A value of the Lua VM (`lua_types::value::LuaValue`), carried through opaquely.
#[verifier::external_type_specification]
#[verifier::external_body]
pub struct ExLuaValue(LuaValue);

/// A Lua value carried by an error, as far as messages need it: a string keeps its bytes.
pub enum ErrorPayload {
    Nil,
    Bool(bool),
    Int(i64),
    Float,
    Str(Vec<u8>),
    Table,
    Function,
    UserData,
    LightUserData,
    Thread,
}

/// A `LuaError`, one variant for each of lua-types' variants; the two that carry a value
/// keep it.
pub enum LuaErrorKind {
    Runtime(LuaValue),
    Syntax(LuaValue),
    Memory,
    Error,
    Yield,
    File,
    Gc,
}

/// What [`payload_of`] makes of a `LuaValue`.
pub uninterp spec fn value_payload(v: LuaValue) -> ErrorPayload;

/// What [`kind_of`] makes of a `LuaError`.
pub uninterp spec fn error_kind(e: LuaError) -> LuaErrorKind;

/// A `LuaValue` (lua-types) as an [`ErrorPayload`]: one arm per variant; a string's bytes
/// are copied out through `LuaString::as_bytes`. Trusted: the result is named by
/// [`value_payload`] of the value (a function of the value alone: no address is copied out);
/// which variant maps to which is not stated beyond the match.
#[verifier::external_body]
fn payload_of(v: &LuaValue) -> (p: ErrorPayload)
    ensures
        p == value_payload(*v),
{
    match v {
        LuaValue::Nil => ErrorPayload::Nil,
        LuaValue::Bool(b) => ErrorPayload::Bool(*b),
        LuaValue::Int(i) => ErrorPayload::Int(*i),
        LuaValue::Float(_) => ErrorPayload::Float,
        LuaValue::Str(s) => ErrorPayload::Str(s.as_bytes().to_vec()),
        LuaValue::Table(_) => ErrorPayload::Table,
        LuaValue::Function(_) => ErrorPayload::Function,
        LuaValue::UserData(_) => ErrorPayload::UserData,
        LuaValue::LightUserData(_) => ErrorPayload::LightUserData,
        LuaValue::Thread(_) => ErrorPayload::Thread,
    }
}

/// A `LuaError` (lua-types) as a [`LuaErrorKind`]: one arm per variant, moving the carried
/// value. Trusted: the result is named by [`error_kind`] of the error, a function of the
/// error alone.
#[verifier::external_body]
fn kind_of(e: &LuaError) -> (k: LuaErrorKind)
    ensures
        k == error_kind(*e),
{
    match e {
        LuaError::Runtime(v) => LuaErrorKind::Runtime(*v),
        LuaError::Syntax(v) => LuaErrorKind::Syntax(*v),
        LuaError::Memory => LuaErrorKind::Memory,
        LuaError::Error => LuaErrorKind::Error,
        LuaError::Yield => LuaErrorKind::Yield,
        LuaError::File => LuaErrorKind::File,
        LuaError::Gc => LuaErrorKind::Gc,
    }
}

/// What [`debug_text`] writes for a `LuaError`.
pub uninterp spec fn error_debug_text(e: LuaError) -> Seq<char>;

/// The `Debug` text of a `LuaError` (derived in lua-types). Trusted: the result is named by
/// [`error_debug_text`] of the error. The derived `Debug` reads only the error itself: a GC
/// pointer it carries prints as the address that pointer holds, which is part of the value.
#[verifier::external_body]
fn debug_text(e: &LuaError) -> (s: String)
    ensures
        s@ == error_debug_text(*e),
{
    format!("{:?}", e)
}

/// The value an error carries: that of a runtime or syntax error, none for the others.
pub open spec fn carried_value(k: LuaErrorKind) -> Option<LuaValue> {
    match k {
        LuaErrorKind::Runtime(v) => Some(v),
        LuaErrorKind::Syntax(v) => Some(v),
        _ => None,
    }
}

/// Takes out the value a runtime or syntax error carries.
pub fn error_value(k: LuaErrorKind) -> (v: Option<LuaValue>)
    ensures
        v == carried_value(k),
        k matches LuaErrorKind::Runtime(x) ==> v == Some(x),
        k matches LuaErrorKind::Syntax(x) ==> v == Some(x),
        !(k is Runtime || k is Syntax) ==> v is None,
{
    match k {
        LuaErrorKind::Runtime(v) => Some(v),
        LuaErrorKind::Syntax(v) => Some(v),
        _ => None,
    }
}

/// The bytes of the string an error carries, if it carries a string.
pub open spec fn string_payload(p: Option<ErrorPayload>) -> Option<Seq<u8>> {
    match p {
        Some(ErrorPayload::Str(b)) => Some(b@),
        _ => None,
    }
}

/// The message of an error: the text of the string it carries (lossily decoded from UTF-8),
/// else its `Debug` text `debug`.
pub open spec fn message_text(p: Option<ErrorPayload>, debug: Seq<char>) -> Seq<char> {
    match string_payload(p) {
        Some(b) => lossy_utf8_text(b),
        None => debug,
    }
}

/// What a `LuaError` carries, as far as messages need it: the payload of the value a runtime
/// or syntax error carries, none for the others.
pub open spec fn error_payload(e: LuaError) -> Option<ErrorPayload> {
    match carried_value(error_kind(e)) {
        Some(v) => Some(value_payload(v)),
        None => None,
    }
}

/// Whether an error carries a string.
pub fn has_string_payload(p: &Option<ErrorPayload>) -> (b: bool)
    ensures
        b == string_payload(*p) is Some,
        b == (*p matches Some(ErrorPayload::Str(_))),
{
    match p {
        Some(ErrorPayload::Str(_)) => true,
        _ => false,
    }
}

/// Picks the message of an error from what it carries: the text of a string, else the
/// `Debug` text `debug`.
pub fn error_message(p: &Option<ErrorPayload>, debug: &String) -> (msg: String)
    ensures
        msg@ == message_text(*p, debug@),
        string_payload(*p) matches Some(b) ==> (valid_utf8(b) ==> msg@ == decode_utf8(b)),
        *p matches Some(ErrorPayload::Str(b)) ==> msg@ == lossy_utf8_text(b@),
        !(*p matches Some(ErrorPayload::Str(_))) ==> msg@ == debug@,
{
    match p {
        Some(ErrorPayload::Str(b)) => utf8_lossy(b),
        _ => debug.clone(),
    }
}

/// Renders a `LuaError`'s message. `LuaError`'s `Display` only prints the GC pointer for
/// `Runtime`/`Syntax` string payloads, so the string's bytes are read out instead.
pub fn lua_err_msg(e: &LuaError) -> (msg: String)
    ensures
        string_payload(error_payload(*e)) matches Some(b) ==> msg@ == lossy_utf8_text(b),
        string_payload(error_payload(*e)) is None ==> msg@ == error_debug_text(*e),
        string_payload(error_payload(*e)) matches Some(b) ==> (valid_utf8(b) ==> msg@
            == decode_utf8(b)),
{
    let carried = match error_value(kind_of(e)) {
        Some(v) => Some(payload_of(&v)),
        None => None,
    };
    let debug = if has_string_payload(&carried) {
        String::new()
    } else {
        debug_text(e)
    };
    error_message(&carried, &debug)
}

/// The text of the host error for a message: `lua-rs: ` and the message.
pub fn error_text(msg: &String) -> (text: String)
    ensures
        text@ == "lua-rs: "@ + msg@,
{
    let mut text = String::from_str("lua-rs: ");
    text.append(msg.as_str());
    text
}

/// The text of the host error a Lua error becomes: `lua-rs: ` and [`lua_err_msg`].
pub fn lua_err_text(e: &LuaError) -> (text: String)
    ensures
        text@.len() >= 8,
        text@.take(8) == "lua-rs: "@,
        string_payload(error_payload(*e)) matches Some(b) ==> text@ == "lua-rs: "@
            + lossy_utf8_text(b),
        string_payload(error_payload(*e)) is None ==> text@ == "lua-rs: "@ + error_debug_text(
            *e,
        ),
        string_payload(error_payload(*e)) matches Some(b) ==> (valid_utf8(b) ==> text@
            == "lua-rs: "@ + decode_utf8(b)),
{
    let msg = lua_err_msg(e);
    let text = error_text(&msg);
    proof {
        reveal_strlit("lua-rs: ");
        assert(text@.take(8) =~= "lua-rs: "@);
    }
    text
}

/// A runtime or syntax error's message comes from the value it carries, which is a string's
/// text when it carries a string; every other error's message is its `Debug` text.
pub proof fn law_message_source(e: LuaError, v: LuaValue, debug: Seq<char>)
    ensures
        error_kind(e) == LuaErrorKind::Runtime(v) ==> error_payload(e) == Some(value_payload(v)),
        error_kind(e) == LuaErrorKind::Syntax(v) ==> error_payload(e) == Some(value_payload(v)),
        !(error_kind(e) is Runtime || error_kind(e) is Syntax) ==> error_payload(e) is None,
        forall|b: Vec<u8>|
            #[trigger] message_text(Some(ErrorPayload::Str(b)), debug) == lossy_utf8_text(b@),
        message_text(None, debug) == debug,
        value_payload(v) is Str || message_text(Some(value_payload(v)), debug) == debug,
{
}

} // verus!
