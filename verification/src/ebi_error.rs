use vstd::prelude::*;
use vstd::string::StringExecFns;
use crate::text::{join_plain_spec, join_with, string_views};

verus! {

/// A failure of input resolution.
///
/// `read_as_trait` keeps the error of the last attempted candidate and
/// wraps it with context; `read_as_object` and `read_as_any_object`
/// discard every per-attempt error and report only that the file was not
/// recognised. The asymmetry is part of the observable behaviour and is
/// reproduced faithfully.
#[derive(Debug)]
pub enum InputError {
    /// No handler declares an importer for the requested capability, so
    /// nothing could even be attempted.
    NothingAttempted { requested: String },
    /// Candidates were attempted and all of them failed. Carries the
    /// requested capability's name, the display names of the formats that
    /// were tried, and the last attempted handler with its underlying
    /// parse error.
    Exhausted {
        requested: String,
        attempted: Vec<String>,
        last_handler: String,
        last_error: String,
    },
    /// No object-importer accepted the bytes; per-attempt causes are
    /// deliberately not kept.
    NotRecognised,
    /// A resolved input was handed to a consumer expecting another type.
    WrongType { requested: String },
}

impl InputError {
    /// The rendered message of the error.
    pub open spec fn message_spec(self) -> Seq<char> {
        match self {
            InputError::NothingAttempted { requested } => {
                "No importer is registered for "@ + requested@ + "."@
            },
            InputError::Exhausted { requested, attempted, last_handler, last_error } => {
                "Attempting to parse file as "@ + requested@ + ", as either "@ + join_plain_spec(
                    string_views(attempted@),
                    ", "@,
                )
                    + ".\nIf you know the type of your file, use a validation command to check it.\nThe last attempted importer was: "@
                    + last_handler@ + ".\n"@ + last_error@
            },
            InputError::NotRecognised => "File could not be recognised."@,
            InputError::WrongType { requested } => {
                "The input cannot be used as "@ + requested@ + "."@
            },
        }
    }

    /// Render the error for the caller.
    pub fn message(&self) -> (r: String)
        ensures
            r@ == self.message_spec(),
    {
        match self {
            InputError::NothingAttempted { requested } => {
                let mut r = String::new();
                r.append("No importer is registered for ");
                r.append(requested.as_str());
                r.append(".");
                r
            },
            InputError::Exhausted { requested, attempted, last_handler, last_error } => {
                let joined = join_with(attempted, ", ", ", ");
                proof {
                    let vs = string_views(attempted@);
                    if vs.len() > 1 {
                        assert(joined@ == join_plain_spec(vs.drop_last(), ", "@) + ", "@
                            + vs.last());
                        assert(join_plain_spec(vs, ", "@) == join_plain_spec(vs.drop_last(), ", "@)
                            + ", "@ + vs.last());
                    }
                }
                let mut r = String::new();
                r.append("Attempting to parse file as ");
                r.append(requested.as_str());
                r.append(", as either ");
                r.append(joined.as_str());
                r.append(
                    ".\nIf you know the type of your file, use a validation command to check it.\nThe last attempted importer was: ",
                );
                r.append(last_handler.as_str());
                r.append(".\n");
                r.append(last_error.as_str());
                r
            },
            InputError::NotRecognised => {
                let mut r = String::new();
                r.append("File could not be recognised.");
                r
            },
            InputError::WrongType { requested } => {
                let mut r = String::new();
                r.append("The input cannot be used as ");
                r.append(requested.as_str());
                r.append(".");
                r
            },
        }
    }
}

} // verus!
