use vstd::prelude::*;
use vstd::string::*;

use crate::{Style, END, START};

verus! {

impl Style {
    /// The three descriptor bytes of the style: foreground code, background
    /// code and attribute bits.
    pub open spec fn descriptor(self) -> Seq<u8> {
        seq![self.foreground.code(), self.background.code(), self.attributes@]
    }

    /// The descriptor bytes, each as the character of that code.
    pub open spec fn descriptor_chars(self) -> Seq<char> {
        seq![
            self.foreground.code() as char,
            self.background.code() as char,
            self.attributes@ as char,
        ]
    }

    /// `text` wrapped in a styled run of this style: START, the descriptor,
    /// the text and END.
    pub open spec fn styled(self, text: Seq<char>) -> Seq<char> {
        seq![START] + self.descriptor_chars() + text + seq![END]
    }

    /// Encodes the style as its three descriptor bytes.
    pub fn encode_desc_bytes(&self) -> (r: [u8; 3])
        ensures
            r@ == self.descriptor(),
    {
        [self.foreground.to_byte(), self.background.to_byte(), self.attributes.to_byte()]
    }

    /// Encodes the style as its three descriptor characters.
    pub fn encode_desc(&self) -> (r: [char; 3])
        ensures
            r@ == self.descriptor_chars(),
    {
        [
            self.foreground.to_byte() as char,
            self.background.to_byte() as char,
            self.attributes.to_byte() as char,
        ]
    }

    /// Appends `string` to `out` as a styled run of this style: five
    /// characters more than `string` holds.
    pub fn style_to(&self, out: &mut String, string: &str)
        ensures
            final(out)@ == old(out)@ + self.styled(string@),
    {
        let desc = self.encode_desc();
        push_char(out, START);
        push_char(out, desc[0]);
        push_char(out, desc[1]);
        push_char(out, desc[2]);
        out.append(string);
        push_char(out, END);
        proof {
            assert(final(out)@ =~= old(out)@ + self.styled(string@));
        }
    }

    /// `string` as a styled run of this style, in a new string.
    pub fn style(&self, string: &str) -> (r: String)
        ensures
            r@ == self.styled(string@),
    {
        let mut out = String::new();
        self.style_to(&mut out, string);
        proof {
            assert(out@ =~= self.styled(string@));
        }
        out
    }
}

/// Relies on `String::push`: appends one character to the string.
#[verifier::external_body]
fn push_char(s: &mut String, c: char)
    ensures
        final(s)@ == old(s)@.push(c),
{
    s.push(c)
}

} // verus!
