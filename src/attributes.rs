use vstd::prelude::*;

verus! {

/// Name of the field that holds a document's title.
pub open spec fn title_field() -> Seq<char> {
    "title"@
}

/// Name of the field that holds a document's link.
pub open spec fn link_field() -> Seq<char> {
    "link"@
}

/// Name of the field that holds the text of one chunk.
pub open spec fn chunk_text_field() -> Seq<char> {
    "chunk_text"@
}

/// One named attribute with a text value.
pub struct Field {
    pub name: String,
    pub value: String,
}

/// A structured set of named attributes, in the order in which they were
/// built; the downstream index reads them by the agreed field names.
pub struct Attributes {
    pub fields: Vec<Field>,
}

impl View for Attributes {
    type V = Seq<(Seq<char>, Seq<char>)>;

    open spec fn view(&self) -> Seq<(Seq<char>, Seq<char>)> {
        self.fields@.map_values(|f: Field| (f.name@, f.value@))
    }
}

fn field(name: &str, value: &String) -> (r: Field)
    ensures
        r.name@ == name@,
        r.value@ == value@,
{
    Field { name: String::from_str(name), value: value.clone() }
}

/// The document-level attributes: its title and its link.
pub fn document_attributes(title: &String, link: &String) -> (r: Attributes)
    ensures
        r@ == seq![(title_field(), title@), (link_field(), link@)],
{
    proof {
        reveal_strlit("title");
        reveal_strlit("link");
    }
    let mut fields: Vec<Field> = Vec::new();
    fields.push(field("title", title));
    fields.push(field("link", link));
    let r = Attributes { fields };
    assert(r@ =~= seq![(title_field(), title@), (link_field(), link@)]);
    r
}

/// The attributes of one chunk: its text.
pub fn chunk_attributes(chunk_text: &String) -> (r: Attributes)
    ensures
        r@ == seq![(chunk_text_field(), chunk_text@)],
{
    proof {
        reveal_strlit("chunk_text");
    }
    let mut fields: Vec<Field> = Vec::new();
    fields.push(field("chunk_text", chunk_text));
    let r = Attributes { fields };
    assert(r@ =~= seq![(chunk_text_field(), chunk_text@)]);
    r
}

} // verus!
