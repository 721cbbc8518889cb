use vstd::prelude::*;

verus! {

/// The mathematical value of a [`ClientInfo`].
pub struct IdentityView {
    pub imei: Seq<char>,
    pub iccid: Seq<char>,
    pub fver: Seq<char>,
    pub csq: Option<i32>,
}

/// The identity a device announces in its registration document.
///
/// `imei` is the device's primary identifier; `csq` is the optional
/// signal-quality reading.
#[derive(Debug)]
pub struct ClientInfo {
    pub imei: String,
    pub iccid: String,
    pub fver: String,
    pub csq: Option<i32>,
}

impl View for ClientInfo {
    type V = IdentityView;

    open spec fn view(&self) -> IdentityView {
        IdentityView { imei: self.imei@, iccid: self.iccid@, fver: self.fver@, csq: self.csq }
    }
}

impl ClientInfo {
    pub fn new(imei: String, iccid: String, fver: String, csq: Option<i32>) -> (r: ClientInfo)
        ensures
            r.imei@ == imei@,
            r.iccid@ == iccid@,
            r.fver@ == fver@,
            r.csq == csq,
    {
        ClientInfo { imei, iccid, fver, csq }
    }

    /// The identifier under which the device is registered and logged.
    pub fn identifier(&self) -> (r: String)
        ensures
            r@ == self.imei@,
    {
        self.imei.clone()
    }

    /// An independent copy of this identity.
    pub fn snapshot(&self) -> (r: ClientInfo)
        ensures
            r@ == self@,
    {
        ClientInfo {
            imei: self.imei.clone(),
            iccid: self.iccid.clone(),
            fver: self.fver.clone(),
            csq: self.csq,
        }
    }
}

impl Clone for ClientInfo {
    fn clone(&self) -> (r: ClientInfo)
        ensures
            r@ == self@,
    {
        self.snapshot()
    }
}

} // verus!
