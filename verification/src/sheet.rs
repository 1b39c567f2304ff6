//! What a sheet asks of its name.

use rust_xlsxwriter::Worksheet;
use vstd::prelude::*;

verus! {

/// The characters that a sheet name may not hold.
pub open spec fn forbidden_in_sheet_name(c: char) -> bool {
    c == '*' || c == '?' || c == ':' || c == '[' || c == ']' || c == '\\' || c == '/'
}

/// Whether a sheet takes the name: it is not empty, has at most 31
/// characters, none of them forbidden, and neither begins nor ends with an
/// apostrophe.
pub open spec fn sheet_name_accepted(name: Seq<char>) -> bool {
    &&& 0 < name.len() <= 31
    &&& forall|i: int| 0 <= i < name.len() ==> !forbidden_in_sheet_name(#[trigger] name[i])
    &&& name[0] != '\''
    &&& name[name.len() - 1] != '\''
}

/// Why a sheet refuses a name that it does not take: the first that holds of
/// its being blank, too long, holding a forbidden character, and beginning or
/// ending with an apostrophe.
pub open spec fn refusal_reason(name: Seq<char>) -> Seq<char> {
    if name.len() == 0 {
        "cannot be blank."@
    } else if name.len() > 31 {
        "exceeds Excel's limit of 31 characters."@
    } else if exists|i: int| 0 <= i < name.len() && forbidden_in_sheet_name(#[trigger] name[i]) {
        "cannot contain invalid characters: '[ ] : * ? / \\'."@
    } else {
        "cannot start or end with an apostrophe."@
    }
}

/// The message with which a sheet refuses a name that it does not take: the
/// call that set the name, then the reason.
pub open spec fn sheet_name_refusal(name: Seq<char>) -> Seq<char> {
    "Worksheet name 'worksheet.set_name(\""@ + name + "\")' "@ + refusal_reason(name)
}

/// Asks a fresh `rust_xlsxwriter::Worksheet` to take the name, by
/// `Worksheet::set_name`, and gives the message of the error if it refuses.
///
/// Believed, not proved: the worksheet refuses exactly the names that
/// `sheet_name_accepted` rules out, and the text of its error is the one
/// that `sheet_name_refusal` spells out.
#[verifier::external_body]
pub(crate) fn ask_sheet_name(name: &str) -> (refusal: Option<String>)
    ensures
        refusal is None <==> sheet_name_accepted(name@),
        refusal matches Some(message) ==> message@ == sheet_name_refusal(name@),
{
    match Worksheet::new().set_name(name) {
        Ok(_) => None,
        Err(error) => Some(error.to_string()),
    }
}

} // verus!
