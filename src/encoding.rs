use vstd::prelude::*;

verus! {

/// One text encoding: the name shown to the user and its normalized name.
#[derive(Clone, Copy)]
pub struct Encoding {
    pub label: &'static str,
    pub canonical: &'static str,
}

/// The encodings offered to the user: a short list of preferred ones and the
/// full list.
pub struct Encodings {
    pub preferred: Vec<Encoding>,
    pub all: Vec<Encoding>,
}

/// The two encodings supported here, in order: UTF-8, then UTF-8 with BOM.
pub open spec fn is_supported_list(v: Seq<Encoding>) -> bool {
    &&& v.len() == 2
    &&& v[0].label@ == "UTF-8"@ && v[0].canonical@ == "UTF-8"@
    &&& v[1].label@ == "UTF-8 BOM"@ && v[1].canonical@ == "UTF-8 BOM"@
}

fn supported_list() -> (r: Vec<Encoding>)
    ensures
        is_supported_list(r@),
{
    let mut v: Vec<Encoding> = Vec::new();
    v.push(Encoding { label: "UTF-8", canonical: "UTF-8" });
    v.push(Encoding { label: "UTF-8 BOM", canonical: "UTF-8 BOM" });
    v
}

/// The catalog of encodings; both lists hold UTF-8 and UTF-8 with BOM.
pub fn get_available_encodings() -> (r: Encodings)
    ensures
        is_supported_list(r.preferred@),
        is_supported_list(r.all@),
{
    Encodings { preferred: supported_list(), all: supported_list() }
}

} // verus!
