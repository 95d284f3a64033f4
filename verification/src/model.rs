//! The overload set as plain values: what the generator reads of each function.

use vstd::prelude::*;
use vstd::string::StringExecFns;

verus! {

/// One entry of a function's argument list.
pub enum ArgModel {
    /// A `self` receiver. `reference` holds when the receiver's type is a reference
    /// (`&self`, `self: &Self`), `mutability` when that reference is `&mut`; `text` is
    /// its source text (such as `&mut self`).
    Receiver { reference: bool, mutability: bool, text: String },
    /// A typed argument `pat: ty`. `name` is the identifier of the pattern when the
    /// pattern is a plain identifier; `ty` is the source text of the type.
    Typed { name: Option<String>, ty: String },
}

/// One function of an overload set.
pub struct FnModel {
    /// The function's name, as its identifier prints.
    pub name: String,
    /// The argument list, in order.
    pub inputs: Vec<ArgModel>,
    /// The source text of the return type, or `None` when the signature has no `->`.
    pub output: Option<String>,
    /// The source text of the body, braces included.
    pub block: String,
}

/// What is read of one argument, as plain values.
pub enum ArgRead {
    /// A `self` receiver: `Some(m)` when its type is a reference, `m` telling whether
    /// the reference is `&mut`, else `None`; and its source text.
    Receiver { by_ref: Option<bool>, text: Seq<char> },
    /// A typed argument: the identifier of its pattern, when the pattern is one, and
    /// the source text of its type.
    Typed { name: Option<Seq<char>>, ty: Seq<char> },
}

/// What is read of one function, as plain values.
pub struct FnRead {
    pub name: Seq<char>,
    pub inputs: Seq<ArgRead>,
    pub output: Option<Seq<char>>,
    pub block: Seq<char>,
}

/// The text of an optional string.
pub open spec fn opt_text(o: Option<String>) -> Option<Seq<char>> {
    match o {
        Some(s) => Some(s@),
        None => None,
    }
}

impl View for ArgModel {
    type V = ArgRead;

    open spec fn view(&self) -> ArgRead {
        match self {
            ArgModel::Receiver { reference, mutability, text } => ArgRead::Receiver {
                by_ref: if *reference {
                    Some(*mutability)
                } else {
                    None
                },
                text: text@,
            },
            ArgModel::Typed { name, ty } => ArgRead::Typed { name: opt_text(*name), ty: ty@ },
        }
    }
}

impl View for FnModel {
    type V = FnRead;

    open spec fn view(&self) -> FnRead {
        FnRead {
            name: self.name@,
            inputs: self.inputs@.map_values(|a: ArgModel| a@),
            output: opt_text(self.output),
            block: self.block@,
        }
    }
}

/// The input of the overload macro.
pub enum OverloadInput {
    /// A list of free functions.
    Functions(Vec<FnModel>),
    /// A list of methods or associated functions, with the name of the impl (Self) type.
    Methods { self_ty: String, functions: Vec<FnModel> },
}

/// The kind of receiver of a method or associated function.
#[derive(Clone, Copy, Debug, PartialEq, Eq, Structural)]
pub enum ReceiverKind {
    /// `self`
    Owned,
    /// `&self`
    Ref,
    /// `&mut self`
    RefMut,
    /// An associated function with no receiver.
    NoReceiver,
}

/// Why an overload set could not be expanded.
#[derive(Debug, PartialEq, Eq)]
pub enum OverloadError {
    /// The input is not a list of functions or an impl block; the parser's message.
    Parse(String),
    /// The impl block's self type is not a plain type path.
    NotPlainTypeName,
    /// The impl block holds an item that is not a function.
    NonFnImplItem,
    /// The overload set holds no function.
    EmptyOverloadSet,
    /// The methods of the set do not all take the same kind of receiver.
    ReceiverMismatch,
    /// The generated source could not be read back as tokens; the lexer's message.
    Lex(String),
}

/// The receiver kind that an argument stands for when it comes first.
pub open spec fn receiver_kind_of_arg(a: ArgModel) -> ReceiverKind {
    match a {
        ArgModel::Receiver { reference, mutability, .. } => {
            if reference {
                if mutability {
                    ReceiverKind::RefMut
                } else {
                    ReceiverKind::Ref
                }
            } else {
                ReceiverKind::Owned
            }
        },
        ArgModel::Typed { .. } => ReceiverKind::NoReceiver,
    }
}

/// The receiver kind of a function whose argument list is `inputs`.
pub open spec fn receiver_kind_of(inputs: Seq<ArgModel>) -> ReceiverKind {
    if inputs.len() == 0 {
        ReceiverKind::NoReceiver
    } else {
        receiver_kind_of_arg(inputs[0])
    }
}

/// The text that reports an error.
pub open spec fn error_message_text(e: OverloadError) -> Seq<char> {
    match e {
        OverloadError::Parse(m) => m@,
        OverloadError::NotPlainTypeName => "overload! impl block must use a plain type name"@,
        OverloadError::NonFnImplItem => "overload! impl block may only contain fn items"@,
        OverloadError::EmptyOverloadSet => "index out of bounds: the len is 0 but the index is 0"@,
        OverloadError::ReceiverMismatch =>
            "all overloads must use the same receiver kind (&self, &mut self, self, or no receiver)"@,
        OverloadError::Lex(m) => m@,
    }
}

impl OverloadError {
    /// Returns the text that reports this error.
    pub fn message(&self) -> (m: String)
        ensures
            m@ == error_message_text(*self),
    {
        match self {
            OverloadError::Parse(m) => m.clone(),
            OverloadError::NotPlainTypeName => String::from_str(
                "overload! impl block must use a plain type name",
            ),
            OverloadError::NonFnImplItem => String::from_str(
                "overload! impl block may only contain fn items",
            ),
            OverloadError::EmptyOverloadSet => String::from_str(
                "index out of bounds: the len is 0 but the index is 0",
            ),
            OverloadError::ReceiverMismatch => String::from_str(
                "all overloads must use the same receiver kind (&self, &mut self, self, or no receiver)",
            ),
            OverloadError::Lex(m) => m.clone(),
        }
    }
}

impl ReceiverKind {
    /// Returns the receiver kind for the first argument of a function, if any.
    /// Only the first argument of a function can be a receiver.
    pub fn from_args(r: &Option<&ArgModel>) -> (k: ReceiverKind)
        ensures
            match *r {
                Some(a) => k == receiver_kind_of_arg(*a),
                None => k == ReceiverKind::NoReceiver,
            },
    {
        match r {
            Some(ArgModel::Receiver { reference, mutability, .. }) => {
                if *reference {
                    if *mutability {
                        ReceiverKind::RefMut
                    } else {
                        ReceiverKind::Ref
                    }
                } else {
                    ReceiverKind::Owned
                }
            },
            None | Some(ArgModel::Typed { .. }) => ReceiverKind::NoReceiver,
        }
    }
}

} // verus!
