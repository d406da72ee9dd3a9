//! The status registry: a fixed, closed table of the status codes the
//! builder can emit, each with its reason phrase.
use vstd::prelude::*;

verus! {

/// A symbolic HTTP status backed by its numeric code. Every value in use
/// must be a member of the registry (`is_registered`); asking for the reason
/// phrase of any other code is a programming error, not a runtime one.
#[derive(Copy, Clone, PartialEq, Eq, Structural, Debug)]
pub struct HttpStatus {
    pub code: u16,
}

/// The closed registry: 200 OK, 201 Created, 204 No Content.
pub open spec fn is_registered(code: u16) -> bool {
    code == 200 || code == 201 || code == 204
}

/// The reason phrase paired with a registered code.
pub open spec fn reason_of(code: u16) -> Seq<u8>
    recommends
        is_registered(code),
{
    if code == 200 {
        seq!['O' as u8, 'K' as u8]
    } else if code == 201 {
        seq!['C' as u8, 'r' as u8, 'e' as u8, 'a' as u8, 't' as u8, 'e' as u8, 'd' as u8]
    } else {
        seq![
            'N' as u8,
            'o' as u8,
            ' ' as u8,
            'C' as u8,
            'o' as u8,
            'n' as u8,
            't' as u8,
            'e' as u8,
            'n' as u8,
            't' as u8,
        ]
    }
}

impl HttpStatus {
    /// Membership of this status in the registry.
    pub open spec fn wf(self) -> bool {
        is_registered(self.code)
    }

    /// 200 OK.
    pub fn ok() -> (s: HttpStatus)
        ensures
            s.code == 200,
    {
        HttpStatus { code: 200 }
    }

    /// 201 Created.
    pub fn created() -> (s: HttpStatus)
        ensures
            s.code == 201,
    {
        HttpStatus { code: 201 }
    }

    /// 204 No Content.
    pub fn no_content() -> (s: HttpStatus)
        ensures
            s.code == 204,
    {
        HttpStatus { code: 204 }
    }

    /// The numeric code.
    pub fn get_code(&self) -> (c: u16)
        ensures
            c == self.code,
    {
        self.code
    }

    /// The reason phrase of a registered status.
    pub fn get_message(&self) -> (r: Vec<u8>)
        requires
            self.wf(),
        ensures
            r@ == reason_of(self.code),
    {
        let v: Vec<u8>;
        if self.code == 200 {
            v = vec!['O' as u8, 'K' as u8];
        } else if self.code == 201 {
            v = vec!['C' as u8, 'r' as u8, 'e' as u8, 'a' as u8, 't' as u8, 'e' as u8, 'd' as u8];
        } else {
            v = vec![
                'N' as u8,
                'o' as u8,
                ' ' as u8,
                'C' as u8,
                'o' as u8,
                'n' as u8,
                't' as u8,
                'e' as u8,
                'n' as u8,
                't' as u8,
            ];
        }
        v
    }
}

} // verus!
