use vstd::prelude::*;
use crate::ebi_file_handler::{java_views, JavaObjectHandler, JavaObjectHandlerView};

verus! {

/// The fixed interop descriptor of free-text inputs.
pub open spec fn java_object_handlers_string_spec() -> Seq<JavaObjectHandlerView> {
    seq![
        JavaObjectHandlerView {
            name: "string"@,
            java_class: "java.lang.String"@,
            translator_ebi_to_java: Some("org.processmining.ebi.objects.EbiString.fromEbiString"@),
            translator_java_to_ebi: Some("org.processmining.ebi.objects.EbiString.toEbiString"@),
        },
    ]
}

/// The interop descriptors of free-text inputs.
pub fn java_object_handlers_string() -> (r: Vec<JavaObjectHandler>)
    ensures
        java_views(r@) == java_object_handlers_string_spec(),
{
    let mut r: Vec<JavaObjectHandler> = Vec::new();
    r.push(
        JavaObjectHandler {
            name: "string".to_owned(),
            java_class: "java.lang.String".to_owned(),
            translator_ebi_to_java: Some(
                "org.processmining.ebi.objects.EbiString.fromEbiString".to_owned(),
            ),
            translator_java_to_ebi: Some(
                "org.processmining.ebi.objects.EbiString.toEbiString".to_owned(),
            ),
        },
    );
    proof {
        assert(java_views(r@) =~= java_object_handlers_string_spec());
    }
    r
}

/// The fixed interop descriptor of integer inputs.
pub open spec fn java_object_handlers_usize_spec() -> Seq<JavaObjectHandlerView> {
    seq![
        JavaObjectHandlerView {
            name: "integer"@,
            java_class: "java.lang.Integer"@,
            translator_ebi_to_java: Some(
                "org.processmining.ebi.objects.EbiInteger.fromEbiInteger"@,
            ),
            translator_java_to_ebi: Some("org.processmining.ebi.objects.EbiInteger.toEbiInteger"@),
        },
    ]
}

/// The interop descriptors of integer inputs.
pub fn java_object_handlers_usize() -> (r: Vec<JavaObjectHandler>)
    ensures
        java_views(r@) == java_object_handlers_usize_spec(),
{
    let mut r: Vec<JavaObjectHandler> = Vec::new();
    r.push(
        JavaObjectHandler {
            name: "integer".to_owned(),
            java_class: "java.lang.Integer".to_owned(),
            translator_ebi_to_java: Some(
                "org.processmining.ebi.objects.EbiInteger.fromEbiInteger".to_owned(),
            ),
            translator_java_to_ebi: Some(
                "org.processmining.ebi.objects.EbiInteger.toEbiInteger".to_owned(),
            ),
        },
    );
    proof {
        assert(java_views(r@) =~= java_object_handlers_usize_spec());
    }
    r
}

/// The fixed interop descriptor of exact-fraction inputs. Fractions reach
/// the host only in their rendered form; only the host-to-core direction
/// has a translator.
pub open spec fn java_object_handlers_fraction_spec() -> Seq<JavaObjectHandlerView> {
    seq![
        JavaObjectHandlerView {
            name: "fraction"@,
            java_class: "org.apache.commons.math3.fraction.BigFraction"@,
            translator_ebi_to_java: None,
            translator_java_to_ebi: Some(
                "org.processmining.ebi.objects.EbiFraction.toEbiFraction"@,
            ),
        },
    ]
}

/// The interop descriptors of exact-fraction inputs.
pub fn java_object_handlers_fraction() -> (r: Vec<JavaObjectHandler>)
    ensures
        java_views(r@) == java_object_handlers_fraction_spec(),
{
    let mut r: Vec<JavaObjectHandler> = Vec::new();
    r.push(
        JavaObjectHandler {
            name: "fraction".to_owned(),
            java_class: "org.apache.commons.math3.fraction.BigFraction".to_owned(),
            translator_ebi_to_java: None,
            translator_java_to_ebi: Some(
                "org.processmining.ebi.objects.EbiFraction.toEbiFraction".to_owned(),
            ),
        },
    );
    proof {
        assert(java_views(r@) =~= java_object_handlers_fraction_spec());
    }
    r
}

} // verus!
