//! The coded error taxonomy. Errors are values here; rendering them and
//! terminating the process is the front end's business.
use vstd::prelude::*;
use crate::position::Position;
use crate::position::PosV;
use crate::value::Value;
use crate::value::ValueV;
use crate::value::value_view;

verus! {

/// One error of the hierarchical taxonomy, with its payload.
#[derive(Debug)]
pub enum ErrorCode {
    /// 0.0: a defect of the implementation itself.
    Internal { details: String },
    /// 0.1: no input file was given.
    NoFileGiven,
    /// 1.0: the input file does not exist.
    FileMissing { filename: String },
    /// 1.1: the input file cannot be opened.
    FileUnreadable { filename: String },
    /// 2.0.0: brackets closed in the wrong order.
    BracketsMismatched { paren1: char, paren2: char },
    /// 2.0.1: a bracket was never closed.
    BracketUnclosed { paren: char },
    /// 2.0.2: a bracket was never opened.
    BracketUnopened { paren: char },
    /// 2.1.0: an identifier appeared where it cannot stand.
    UnexpectedIdent { ident: String },
    /// 2.1.1: the lexer did not recognise an identifier.
    UnknownIdent { ident: String },
    /// 2.2: an assignment without a variable name.
    AssignmentWithoutTarget,
    /// 2.3: a call left an argument unfilled.
    UnfilledArgument { func: String, index: usize },
    /// 3.0: an undefined variable was read.
    UndefinedVariable { name: String },
    /// 4.0.0: a binary operator is not defined for a pair of types.
    BinaryOprNotDefined { operator: String, type1: String, type2: String },
    /// 4.0.1: a unary operator is not defined for a type.
    UnaryOprNotDefined { operator: String, type_: String },
    /// 4.1.0: a binary operation failed at run time on two values.
    BinaryOprFailed { operator: String, value1: Value, value2: Value },
    /// 4.1.1: a unary operation failed at run time on a value.
    UnaryOprFailed { operator: String, value: Value },
}

/// A coded error, optionally pinned to a source position.
#[derive(Debug)]
pub struct ZyxtError {
    pub position: Option<Position>,
    pub code: ErrorCode,
}

impl ZyxtError {
    /// The hierarchical code of this error, as text.
    pub fn code_str(&self) -> (r: &'static str)
        ensures
            r@ == code_str_of(self.code),
    {
        match &self.code {
            ErrorCode::Internal { .. } => "0.0",
            ErrorCode::NoFileGiven => "0.1",
            ErrorCode::FileMissing { .. } => "1.0",
            ErrorCode::FileUnreadable { .. } => "1.1",
            ErrorCode::BracketsMismatched { .. } => "2.0.0",
            ErrorCode::BracketUnclosed { .. } => "2.0.1",
            ErrorCode::BracketUnopened { .. } => "2.0.2",
            ErrorCode::UnexpectedIdent { .. } => "2.1.0",
            ErrorCode::UnknownIdent { .. } => "2.1.1",
            ErrorCode::AssignmentWithoutTarget => "2.2",
            ErrorCode::UnfilledArgument { .. } => "2.3",
            ErrorCode::UndefinedVariable { .. } => "3.0",
            ErrorCode::BinaryOprNotDefined { .. } => "4.0.0",
            ErrorCode::UnaryOprNotDefined { .. } => "4.0.1",
            ErrorCode::BinaryOprFailed { .. } => "4.1.0",
            ErrorCode::UnaryOprFailed { .. } => "4.1.1",
        }
    }

    /// The same error, pinned to the given position.
    pub fn at(self, pos: &Position) -> (r: ZyxtError)
        ensures
            r.code == self.code,
            r.position matches Some(p) && p@ == pos@,
    {
        ZyxtError { position: Some(pos.duplicate()), code: self.code }
    }
}

/// The code text of each taxonomy entry.
pub open spec fn code_str_of(code: ErrorCode) -> Seq<char> {
    match code {
        ErrorCode::Internal { .. } => "0.0"@,
        ErrorCode::NoFileGiven => "0.1"@,
        ErrorCode::FileMissing { .. } => "1.0"@,
        ErrorCode::FileUnreadable { .. } => "1.1"@,
        ErrorCode::BracketsMismatched { .. } => "2.0.0"@,
        ErrorCode::BracketUnclosed { .. } => "2.0.1"@,
        ErrorCode::BracketUnopened { .. } => "2.0.2"@,
        ErrorCode::UnexpectedIdent { .. } => "2.1.0"@,
        ErrorCode::UnknownIdent { .. } => "2.1.1"@,
        ErrorCode::AssignmentWithoutTarget => "2.2"@,
        ErrorCode::UnfilledArgument { .. } => "2.3"@,
        ErrorCode::UndefinedVariable { .. } => "3.0"@,
        ErrorCode::BinaryOprNotDefined { .. } => "4.0.0"@,
        ErrorCode::UnaryOprNotDefined { .. } => "4.0.1"@,
        ErrorCode::BinaryOprFailed { .. } => "4.1.0"@,
        ErrorCode::UnaryOprFailed { .. } => "4.1.1"@,
    }
}

/// 0.0: internal defect, with a description of what went wrong.
pub fn error_0_0(stack: String) -> (r: ZyxtError)
    ensures
        r.position is None,
        r.code matches ErrorCode::Internal { details } && details@ == stack@,
{
    ZyxtError { position: None, code: ErrorCode::Internal { details: stack } }
}

/// 0.1: no file given.
pub fn error_0_1() -> (r: ZyxtError)
    ensures
        r.position is None,
        r.code is NoFileGiven,
{
    ZyxtError { position: None, code: ErrorCode::NoFileGiven }
}

/// 1.0: the file does not exist.
pub fn error_1_0(filename: String) -> (r: ZyxtError)
    ensures
        r.position is None,
        r.code matches ErrorCode::FileMissing { filename: f } && f@ == filename@,
{
    ZyxtError { position: None, code: ErrorCode::FileMissing { filename } }
}

/// 1.1: the file cannot be opened.
pub fn error_1_1(filename: String) -> (r: ZyxtError)
    ensures
        r.position is None,
        r.code matches ErrorCode::FileUnreadable { filename: f } && f@ == filename@,
{
    ZyxtError { position: None, code: ErrorCode::FileUnreadable { filename } }
}

/// 2.0.0: brackets not closed properly; they may need swapping.
pub fn error_2_0_0(paren1: char, paren2: char) -> (r: ZyxtError)
    ensures
        r.position is None,
        r.code == (ErrorCode::BracketsMismatched { paren1, paren2 }),
{
    ZyxtError { position: None, code: ErrorCode::BracketsMismatched { paren1, paren2 } }
}

/// 2.0.1: a bracket was not closed.
pub fn error_2_0_1(paren: char) -> (r: ZyxtError)
    ensures
        r.position is None,
        r.code == (ErrorCode::BracketUnclosed { paren }),
{
    ZyxtError { position: None, code: ErrorCode::BracketUnclosed { paren } }
}

/// 2.0.2: a bracket was not opened.
pub fn error_2_0_2(paren: char) -> (r: ZyxtError)
    ensures
        r.position is None,
        r.code == (ErrorCode::BracketUnopened { paren }),
{
    ZyxtError { position: None, code: ErrorCode::BracketUnopened { paren } }
}

/// 2.1.0: an unexpected identifier.
pub fn error_2_1_0(ident: String) -> (r: ZyxtError)
    ensures
        r.position is None,
        r.code matches ErrorCode::UnexpectedIdent { ident: i } && i@ == ident@,
{
    ZyxtError { position: None, code: ErrorCode::UnexpectedIdent { ident } }
}

/// 2.1.1: an identifier the lexer did not recognise.
pub fn error_2_1_1(ident: String) -> (r: ZyxtError)
    ensures
        r.position is None,
        r.code matches ErrorCode::UnknownIdent { ident: i } && i@ == ident@,
{
    ZyxtError { position: None, code: ErrorCode::UnknownIdent { ident } }
}

/// 2.2: assignment without a variable name.
pub fn error_2_2() -> (r: ZyxtError)
    ensures
        r.position is None,
        r.code is AssignmentWithoutTarget,
{
    ZyxtError { position: None, code: ErrorCode::AssignmentWithoutTarget }
}

/// 2.3: argument number `index` of `func` was left unfilled.
pub fn error_2_3(func: String, index: usize) -> (r: ZyxtError)
    ensures
        r.position is None,
        r.code matches ErrorCode::UnfilledArgument { func: f, index: i } && f@ == func@ && i
            == index,
{
    ZyxtError { position: None, code: ErrorCode::UnfilledArgument { func, index } }
}

/// 3.0: an undefined variable.
pub fn error_3_0(varname: String) -> (r: ZyxtError)
    ensures
        r.position is None,
        r.code matches ErrorCode::UndefinedVariable { name } && name@ == varname@,
{
    ZyxtError { position: None, code: ErrorCode::UndefinedVariable { name: varname } }
}

/// 4.0.0: a binary operator undefined for a pair of types.
pub fn error_4_0_0(operator: String, type1: String, type2: String) -> (r: ZyxtError)
    ensures
        r.position is None,
        r.code matches ErrorCode::BinaryOprNotDefined { operator: o, type1: t1, type2: t2 } && o@
            == operator@ && t1@ == type1@ && t2@ == type2@,
{
    ZyxtError { position: None, code: ErrorCode::BinaryOprNotDefined { operator, type1, type2 } }
}

/// 4.0.1: a unary operator undefined for a type.
pub fn error_4_0_1(operator: String, type_: String) -> (r: ZyxtError)
    ensures
        r.position is None,
        r.code matches ErrorCode::UnaryOprNotDefined { operator: o, type_: t } && o@ == operator@
            && t@ == type_@,
{
    ZyxtError { position: None, code: ErrorCode::UnaryOprNotDefined { operator, type_ } }
}

/// 4.1.0: a binary operation that failed at run time.
pub fn error_4_1_0(operator: String, value1: Value, value2: Value) -> (r: ZyxtError)
    ensures
        r.position is None,
        r.code matches ErrorCode::BinaryOprFailed { operator: o, value1: v1, value2: v2 } && o@
            == operator@ && v1 == value1 && v2 == value2,
{
    ZyxtError { position: None, code: ErrorCode::BinaryOprFailed { operator, value1, value2 } }
}

/// 4.1.1: a unary operation that failed at run time.
pub fn error_4_1_1(operator: String, value: Value) -> (r: ZyxtError)
    ensures
        r.position is None,
        r.code matches ErrorCode::UnaryOprFailed { operator: o, value: v } && o@ == operator@ && v
            == value,
{
    ZyxtError { position: None, code: ErrorCode::UnaryOprFailed { operator, value } }
}

/// Mathematical image of an error code.
pub enum ErrorCodeV {
    InternalV { details: Seq<char> },
    NoFileGivenV,
    FileMissingV { filename: Seq<char> },
    FileUnreadableV { filename: Seq<char> },
    BracketsMismatchedV { paren1: char, paren2: char },
    BracketUnclosedV { paren: char },
    BracketUnopenedV { paren: char },
    UnexpectedIdentV { ident: Seq<char> },
    UnknownIdentV { ident: Seq<char> },
    AssignmentWithoutTargetV,
    UnfilledArgumentV { func: Seq<char>, index: int },
    UndefinedVariableV { name: Seq<char> },
    BinaryOprNotDefinedV { operator: Seq<char>, type1: Seq<char>, type2: Seq<char> },
    UnaryOprNotDefinedV { operator: Seq<char>, type_: Seq<char> },
    BinaryOprFailedV { operator: Seq<char>, value1: ValueV, value2: ValueV },
    UnaryOprFailedV { operator: Seq<char>, value: ValueV },
}

/// Mathematical image of an error.
pub struct ZyxtErrorV {
    pub position: Option<PosV>,
    pub code: ErrorCodeV,
}

impl View for ErrorCode {
    type V = ErrorCodeV;

    open spec fn view(&self) -> ErrorCodeV {
        match *self {
            ErrorCode::Internal { details } => ErrorCodeV::InternalV { details: details@ },
            ErrorCode::NoFileGiven => ErrorCodeV::NoFileGivenV,
            ErrorCode::FileMissing { filename } => ErrorCodeV::FileMissingV {
                filename: filename@,
            },
            ErrorCode::FileUnreadable { filename } => ErrorCodeV::FileUnreadableV {
                filename: filename@,
            },
            ErrorCode::BracketsMismatched { paren1, paren2 } => ErrorCodeV::BracketsMismatchedV {
                paren1,
                paren2,
            },
            ErrorCode::BracketUnclosed { paren } => ErrorCodeV::BracketUnclosedV { paren },
            ErrorCode::BracketUnopened { paren } => ErrorCodeV::BracketUnopenedV { paren },
            ErrorCode::UnexpectedIdent { ident } => ErrorCodeV::UnexpectedIdentV { ident: ident@ },
            ErrorCode::UnknownIdent { ident } => ErrorCodeV::UnknownIdentV { ident: ident@ },
            ErrorCode::AssignmentWithoutTarget => ErrorCodeV::AssignmentWithoutTargetV,
            ErrorCode::UnfilledArgument { func, index } => ErrorCodeV::UnfilledArgumentV {
                func: func@,
                index: index as int,
            },
            ErrorCode::UndefinedVariable { name } => ErrorCodeV::UndefinedVariableV {
                name: name@,
            },
            ErrorCode::BinaryOprNotDefined { operator, type1, type2 } => {
                ErrorCodeV::BinaryOprNotDefinedV {
                    operator: operator@,
                    type1: type1@,
                    type2: type2@,
                }
            },
            ErrorCode::UnaryOprNotDefined { operator, type_ } => {
                ErrorCodeV::UnaryOprNotDefinedV { operator: operator@, type_: type_@ }
            },
            ErrorCode::BinaryOprFailed { operator, value1, value2 } => {
                ErrorCodeV::BinaryOprFailedV {
                    operator: operator@,
                    value1: value_view(value1),
                    value2: value_view(value2),
                }
            },
            ErrorCode::UnaryOprFailed { operator, value } => ErrorCodeV::UnaryOprFailedV {
                operator: operator@,
                value: value_view(value),
            },
        }
    }
}

impl View for ZyxtError {
    type V = ZyxtErrorV;

    open spec fn view(&self) -> ZyxtErrorV {
        ZyxtErrorV {
            position: match self.position {
                Some(p) => Some(p@),
                None => None,
            },
            code: self.code@,
        }
    }
}

/// An internal error, with no position.
pub open spec fn err_internal(details: Seq<char>) -> ZyxtErrorV {
    ZyxtErrorV { position: None, code: ErrorCodeV::InternalV { details } }
}

/// Error 2.3 at a position: an unfilled argument.
pub open spec fn err_2_3_at(func: Seq<char>, index: int, pos: PosV) -> ZyxtErrorV {
    ZyxtErrorV { position: Some(pos), code: ErrorCodeV::UnfilledArgumentV { func, index } }
}

/// Error 3.0 at a position: an undefined variable.
pub open spec fn err_3_0_at(name: Seq<char>, pos: PosV) -> ZyxtErrorV {
    ZyxtErrorV { position: Some(pos), code: ErrorCodeV::UndefinedVariableV { name } }
}

/// Error 4.0.0 at a position: a binary operator undefined for two types.
pub open spec fn err_4_0_0_at(
    operator: Seq<char>,
    type1: Seq<char>,
    type2: Seq<char>,
    pos: PosV,
) -> ZyxtErrorV {
    ZyxtErrorV {
        position: Some(pos),
        code: ErrorCodeV::BinaryOprNotDefinedV { operator, type1, type2 },
    }
}

/// Error 4.0.1 at a position: a unary operator undefined for a type.
pub open spec fn err_4_0_1_at(operator: Seq<char>, type_: Seq<char>, pos: PosV) -> ZyxtErrorV {
    ZyxtErrorV { position: Some(pos), code: ErrorCodeV::UnaryOprNotDefinedV { operator, type_ } }
}

/// Error 4.1.0 at a position: a binary operation that failed at run time.
pub open spec fn err_4_1_0_at(
    operator: Seq<char>,
    value1: ValueV,
    value2: ValueV,
    pos: PosV,
) -> ZyxtErrorV {
    ZyxtErrorV {
        position: Some(pos),
        code: ErrorCodeV::BinaryOprFailedV { operator, value1, value2 },
    }
}

/// Error 4.1.1 at a position: a unary operation that failed at run time.
pub open spec fn err_4_1_1_at(operator: Seq<char>, value: ValueV, pos: PosV) -> ZyxtErrorV {
    ZyxtErrorV { position: Some(pos), code: ErrorCodeV::UnaryOprFailedV { operator, value } }
}

} // verus!
