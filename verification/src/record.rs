use vstd::prelude::*;
use vstd::string::StringExecFns;

verus! {

/// The view of a product record: its five display fields as character
/// sequences.
#[verifier::ext_equal]
pub struct FunctionV {
    pub name: Seq<char>,
    pub old_price: Seq<char>,
    pub new_price: Seq<char>,
    pub discount: Seq<char>,
    pub link: Seq<char>,
}

/// One extracted product row: title, the two display-formatted prices, the
/// derived discount text, and the decorated link. A record is only ever
/// built when every field was located in the card's markup.
pub struct Function {
    pub name: String,
    pub old_price: String,
    pub new_price: String,
    pub discount: String,
    pub link: String,
}

impl View for Function {
    type V = FunctionV;

    open spec fn view(&self) -> FunctionV {
        FunctionV {
            name: self.name@,
            old_price: self.old_price@,
            new_price: self.new_price@,
            discount: self.discount@,
            link: self.link@,
        }
    }
}

impl Function {
    /// Builds a record from its five display fields.
    pub fn new(decl: &str, name: &str, ret_type: &str, disc: &str, link: &str) -> (r: Self)
        ensures
            r@ == (FunctionV {
                name: decl@,
                old_price: name@,
                new_price: ret_type@,
                discount: disc@,
                link: link@,
            }),
    {
        Function {
            name: String::from_str(decl),
            old_price: String::from_str(name),
            new_price: String::from_str(ret_type),
            discount: String::from_str(disc),
            link: String::from_str(link),
        }
    }
}

/// The terminal hyperlink encoding: the URL and its display text wrapped in
/// the OSC 8 escape sequence that terminals show as a clickable link.
pub open spec fn spec_osc8(url: Seq<char>, text: Seq<char>) -> Seq<char> {
    "\x1b]8;;"@ + url + "\x1b\\"@ + text + "\x1b]8;;\x1b\\"@
}

/// Wraps a URL in the OSC 8 escape sequence around its display text.
pub fn create_link(x: String, y: String) -> (out: String)
    ensures
        out@ == spec_osc8(x@, y@),
{
    let mut out = String::from_str("\x1b]8;;");
    out.append(x.as_str());
    out.append("\x1b\\");
    out.append(y.as_str());
    out.append("\x1b]8;;\x1b\\");
    out
}

} // verus!
