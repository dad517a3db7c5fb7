use vstd::prelude::*;

verus! {

/// A value that can be imported from raw bytes. The concrete format
/// modules implement this for their object types; the core only needs the
/// outcome.
pub trait Importable: Sized {
    /// What importing returns on `bytes`: the value, or an error message.
    spec fn import_spec(bytes: Seq<u8>) -> Result<Self, Seq<char>>;

    /// Import a value from a fresh view of the bytes.
    fn import(bytes: &[u8]) -> (r: Result<Self, String>)
        ensures
            match Self::import_spec(bytes@) {
                Ok(v) => r matches Ok(rv) && rv == v,
                Err(e) => r matches Err(m) && m@ == e,
            },
    ;
}

/// Parse the bytes as an `X` and discard the value: succeeds exactly when
/// the import succeeds, and fails with the import's own error.
pub fn validate<X: Importable>(bytes: &[u8]) -> (r: Result<(), String>)
    ensures
        match X::import_spec(bytes@) {
            Ok(_) => r is Ok,
            Err(e) => r matches Err(m) && m@ == e,
        },
{
    match X::import(bytes) {
        Ok(_) => Ok(()),
        Err(x) => Err(x),
    }
}

} // verus!
