use vstd::prelude::*;

verus! {

/// One key-value observability attribute, advisory metadata for external
/// indexers rather than part of a call's logical return value.
#[derive(Debug)]
pub struct Attribute {
    pub key: String,
    pub value: String,
}

/// A submessage handed back to the host for further dispatch. No operation
/// in scope emits one; the envelope carries the list only for its shape.
#[derive(Debug)]
pub struct SubMsg {
    pub payload: Vec<u8>,
}

/// The envelope a successful execute call returns: submessages for the host
/// and a list of observability attributes.
#[derive(Debug)]
pub struct Response {
    pub messages: Vec<SubMsg>,
    pub attributes: Vec<Attribute>,
}

impl Response {
    pub fn new() -> (r: Response)
        ensures
            r.messages@ == Seq::<SubMsg>::empty(),
            r.attributes@ == Seq::<Attribute>::empty(),
    {
        Response { messages: Vec::new(), attributes: Vec::new() }
    }

    /// Appends one advisory attribute, leaving everything else as it was.
    pub fn add_attribute(self, key: &str, value: &str) -> (r: Response)
        ensures
            r.messages@ == self.messages@,
            r.attributes@.len() == self.attributes@.len() + 1,
            forall|j: int| 0 <= j < self.attributes@.len()
                ==> r.attributes@[j] == self.attributes@[j],
            r.attributes@.last().key@ == key@,
            r.attributes@.last().value@ == value@,
    {
        let mut attributes = self.attributes;
        attributes.push(Attribute { key: key.to_owned(), value: value.to_owned() });
        Response { messages: self.messages, attributes }
    }
}

} // verus!
