use vstd::prelude::*;
use vstd::string::{StrSliceExecFns, StringSliceAdditionalSpecFns};
use crate::text::{replace_bytes, spec_replace};

verus! {

/// The raw body with each camel-case wire property name replaced by the
/// snake-case domain field name, in this fixed order.
pub open spec fn spec_rename(s: Seq<u8>) -> Seq<u8> {
    spec_replace(
        spec_replace(
            spec_replace(
                spec_replace(
                    spec_replace(
                        spec_replace(
                            spec_replace(
                                s,
                                "appointmentInstance".spec_bytes(),
                                "appointment_instance".spec_bytes(),
                            ),
                            "startTimeSlot".spec_bytes(),
                            "start_time_slot".spec_bytes(),
                        ),
                        "endTimeSlot".spec_bytes(),
                        "end_time_slot".spec_bytes(),
                    ),
                    "type".spec_bytes(),
                    "appointment_type".spec_bytes(),
                ),
                "lastModified".spec_bytes(),
                "last_modified".spec_bytes(),
            ),
            "changeDescription".spec_bytes(),
            "change_description".spec_bytes(),
        ),
        "branchOfSchool".spec_bytes(),
        "branch_of_school".spec_bytes(),
    )
}

/// Rewrites the wire property names of the upstream service to the domain
/// field names, as a plain textual substitution over the body.
pub fn rename_wire_fields(body: &Vec<u8>) -> (r: Vec<u8>)
    ensures
        r@ == spec_rename(body@),
{
    let r1 = replace_bytes(
        body,
        &"appointmentInstance".as_bytes_vec(),
        &"appointment_instance".as_bytes_vec(),
    );
    let r2 = replace_bytes(&r1, &"startTimeSlot".as_bytes_vec(), &"start_time_slot".as_bytes_vec());
    let r3 = replace_bytes(&r2, &"endTimeSlot".as_bytes_vec(), &"end_time_slot".as_bytes_vec());
    let r4 = replace_bytes(&r3, &"type".as_bytes_vec(), &"appointment_type".as_bytes_vec());
    let r5 = replace_bytes(&r4, &"lastModified".as_bytes_vec(), &"last_modified".as_bytes_vec());
    let r6 = replace_bytes(
        &r5,
        &"changeDescription".as_bytes_vec(),
        &"change_description".as_bytes_vec(),
    );
    let r7 = replace_bytes(&r6, &"branchOfSchool".as_bytes_vec(), &"branch_of_school".as_bytes_vec());
    r7
}

} // verus!
