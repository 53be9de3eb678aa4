//! Return codes of the batch numerics library, as the engine passes them on.

use vstd::prelude::*;

verus! {

/// What a batch call reported.
#[derive(Clone, Copy, Debug, PartialEq, Eq, Structural)]
pub enum TARetCode {
    Success,
    LibNotInitialize,
    BadParam,
    AllocErr,
    GroupNotFound,
    FuncNotFound,
    InvalidHandle,
    InvalidParamHolder,
    InvalidParamFunction,
    InputNotAllInitialize,
    OutputNotAllInitialize,
    OutOfRangeStartIndex,
    OutOfRangeEndIndex,
    InvalidListType,
    BadObject,
    NotSupported,
    InternalError,
    UnknownErr,
}

impl TARetCode {
    /// The number that the batch library uses for this code.
    pub open spec fn code_of(self) -> int {
        match self {
            TARetCode::Success => 0,
            TARetCode::LibNotInitialize => 1,
            TARetCode::BadParam => 2,
            TARetCode::AllocErr => 3,
            TARetCode::GroupNotFound => 4,
            TARetCode::FuncNotFound => 5,
            TARetCode::InvalidHandle => 6,
            TARetCode::InvalidParamHolder => 7,
            TARetCode::InvalidParamFunction => 8,
            TARetCode::InputNotAllInitialize => 9,
            TARetCode::OutputNotAllInitialize => 10,
            TARetCode::OutOfRangeStartIndex => 11,
            TARetCode::OutOfRangeEndIndex => 12,
            TARetCode::InvalidListType => 13,
            TARetCode::BadObject => 14,
            TARetCode::NotSupported => 15,
            TARetCode::InternalError => 5000,
            TARetCode::UnknownErr => 65535,
        }
    }

    /// The number that the batch library uses for this code.
    pub fn code(&self) -> (r: i32)
        ensures
            r == self.code_of(),
    {
        match self {
            TARetCode::Success => 0,
            TARetCode::LibNotInitialize => 1,
            TARetCode::BadParam => 2,
            TARetCode::AllocErr => 3,
            TARetCode::GroupNotFound => 4,
            TARetCode::FuncNotFound => 5,
            TARetCode::InvalidHandle => 6,
            TARetCode::InvalidParamHolder => 7,
            TARetCode::InvalidParamFunction => 8,
            TARetCode::InputNotAllInitialize => 9,
            TARetCode::OutputNotAllInitialize => 10,
            TARetCode::OutOfRangeStartIndex => 11,
            TARetCode::OutOfRangeEndIndex => 12,
            TARetCode::InvalidListType => 13,
            TARetCode::BadObject => 14,
            TARetCode::NotSupported => 15,
            TARetCode::InternalError => 5000,
            TARetCode::UnknownErr => 65535,
        }
    }

    /// The code with the number `code`, if the batch library has one.
    pub fn from_code(code: i32) -> (r: Option<TARetCode>)
        ensures
            match r {
                Some(c) => c.code_of() == code,
                None => forall|c: TARetCode| c.code_of() != code,
            },
    {
        if code == 0 {
            Some(TARetCode::Success)
        } else if code == 1 {
            Some(TARetCode::LibNotInitialize)
        } else if code == 2 {
            Some(TARetCode::BadParam)
        } else if code == 3 {
            Some(TARetCode::AllocErr)
        } else if code == 4 {
            Some(TARetCode::GroupNotFound)
        } else if code == 5 {
            Some(TARetCode::FuncNotFound)
        } else if code == 6 {
            Some(TARetCode::InvalidHandle)
        } else if code == 7 {
            Some(TARetCode::InvalidParamHolder)
        } else if code == 8 {
            Some(TARetCode::InvalidParamFunction)
        } else if code == 9 {
            Some(TARetCode::InputNotAllInitialize)
        } else if code == 10 {
            Some(TARetCode::OutputNotAllInitialize)
        } else if code == 11 {
            Some(TARetCode::OutOfRangeStartIndex)
        } else if code == 12 {
            Some(TARetCode::OutOfRangeEndIndex)
        } else if code == 13 {
            Some(TARetCode::InvalidListType)
        } else if code == 14 {
            Some(TARetCode::BadObject)
        } else if code == 15 {
            Some(TARetCode::NotSupported)
        } else if code == 5000 {
            Some(TARetCode::InternalError)
        } else if code == 65535 {
            Some(TARetCode::UnknownErr)
        } else {
            None
        }
    }

    /// What the code means, in words.
    pub open spec fn message_of(self) -> Seq<char> {
        match self {
            TARetCode::Success => "Success"@,
            TARetCode::LibNotInitialize => "TA-Lib not initialized"@,
            TARetCode::BadParam => "Invalid parameters"@,
            TARetCode::AllocErr => "Memory allocation failed"@,
            TARetCode::GroupNotFound => "Function group not found"@,
            TARetCode::FuncNotFound => "Function not found"@,
            TARetCode::InvalidHandle => "Invalid handle"@,
            TARetCode::InvalidParamHolder => "Invalid parameter holder"@,
            TARetCode::InvalidParamFunction => "Invalid parameter function"@,
            TARetCode::InputNotAllInitialize => "Not all inputs initialized"@,
            TARetCode::OutputNotAllInitialize => "Not all outputs initialized"@,
            TARetCode::OutOfRangeStartIndex => "Start index out of range"@,
            TARetCode::OutOfRangeEndIndex => "End index out of range"@,
            TARetCode::InvalidListType => "Invalid list type"@,
            TARetCode::BadObject => "Bad object"@,
            TARetCode::NotSupported => "Operation not supported"@,
            TARetCode::InternalError => "TA-Lib internal error"@,
            TARetCode::UnknownErr => "Unknown error"@,
        }
    }

    /// What the code means, in words.
    pub fn message(&self) -> (r: &'static str)
        ensures
            r@ == self.message_of(),
    {
        match self {
            TARetCode::Success => "Success",
            TARetCode::LibNotInitialize => "TA-Lib not initialized",
            TARetCode::BadParam => "Invalid parameters",
            TARetCode::AllocErr => "Memory allocation failed",
            TARetCode::GroupNotFound => "Function group not found",
            TARetCode::FuncNotFound => "Function not found",
            TARetCode::InvalidHandle => "Invalid handle",
            TARetCode::InvalidParamHolder => "Invalid parameter holder",
            TARetCode::InvalidParamFunction => "Invalid parameter function",
            TARetCode::InputNotAllInitialize => "Not all inputs initialized",
            TARetCode::OutputNotAllInitialize => "Not all outputs initialized",
            TARetCode::OutOfRangeStartIndex => "Start index out of range",
            TARetCode::OutOfRangeEndIndex => "End index out of range",
            TARetCode::InvalidListType => "Invalid list type",
            TARetCode::BadObject => "Bad object",
            TARetCode::NotSupported => "Operation not supported",
            TARetCode::InternalError => "TA-Lib internal error",
            TARetCode::UnknownErr => "Unknown error",
        }
    }

    /// Whether a report of this code carries the code's number after the
    /// words: the two codes that stand for more than one cause do.
    pub fn carries_number(&self) -> (r: bool)
        ensures
            r <==> *self == TARetCode::InternalError || *self == TARetCode::UnknownErr,
    {
        match self {
            TARetCode::InternalError => true,
            TARetCode::UnknownErr => true,
            _ => false,
        }
    }
}

/// Whether `cause` is what the return code `code`, other than success, stands
/// for: the code of that number, or an internal error where no code has it.
pub open spec fn is_cause_of(cause: TARetCode, code: int) -> bool {
    cause.code_of() == code || (cause == TARetCode::InternalError && forall|c: TARetCode|
        c.code_of() != code)
}

/// Turns a batch call's return code into success or the cause of failure:
/// zero is success, a known code is its own cause, and any other number is an
/// internal error.
pub fn check_ret_code(code: i32) -> (r: Result<(), TARetCode>)
    ensures
        r.is_ok() <==> code == 0,
        r.is_err() ==> is_cause_of(r.unwrap_err(), code as int),
{
    if code == 0 {
        Ok(())
    } else {
        match TARetCode::from_code(code) {
            Some(c) => Err(c),
            None => Err(TARetCode::InternalError),
        }
    }
}

/// A return code stands for one cause only.
pub proof fn lemma_cause_unique(a: TARetCode, b: TARetCode, code: int)
    requires
        is_cause_of(a, code),
        is_cause_of(b, code),
    ensures
        a == b,
{
}

/// Two codes with the same number are the same code.
pub proof fn lemma_code_injective(a: TARetCode, b: TARetCode)
    requires
        a.code_of() == b.code_of(),
    ensures
        a == b,
{
}

} // verus!
