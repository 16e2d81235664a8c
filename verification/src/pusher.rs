//! What is sent to the device: where the request goes and what it carries.
//! Sending it is left to the caller.

use vstd::prelude::*;

verus! {

/// The address of the devices of the service; the device's name and `/push`
/// follow it.
pub const DEVICES_URL: &'static str = "https://api.tidbyt.com/v0/devices/";

/// The name under which the image is installed on the device.
pub const INSTALLATION: &'static str = "custom";

/// The text that the `base64` crate's standard engine makes of `data`: the
/// standard alphabet, with padding.
pub uninterp spec fn base64_text(data: Seq<u8>) -> Seq<char>;

/// `base64::Engine::encode` on `base64::engine::general_purpose::STANDARD`.
/// Trusted: the text depends on the bytes alone. The call panics where the
/// length of the text does not fit `usize`; the precondition leaves those
/// inputs out.
#[verifier::external_body]
fn encode_base64(data: &[u8]) -> (text: String)
    requires
        data.len() / 3 * 4 + 4 <= usize::MAX,
    ensures
        text@ == base64_text(data@),
{
    base64::Engine::encode(&base64::engine::general_purpose::STANDARD, data)
}

/// A request to show an image on a device.
#[derive(Clone, Debug, PartialEq, Eq)]
pub struct PushRequest {
    /// The address to post to.
    pub endpoint: String,
    pub device_id: String,
    pub installation_id: String,
    /// The image file, in base64.
    pub image: String,
    /// Whether the image is installed in the background.
    pub background: bool,
}

/// The request that shows the image file `file_contents` on the device
/// `device_id`, in the background.
pub fn push_request(device_id: &str, file_contents: &[u8]) -> (request: PushRequest)
    requires
        file_contents.len() / 3 * 4 + 4 <= usize::MAX,
    ensures
        request.endpoint@ == DEVICES_URL@ + device_id@ + "/push"@,
        request.device_id@ == device_id@,
        request.installation_id@ == INSTALLATION@,
        request.image@ == base64_text(file_contents@),
        request.background,
{
    let mut endpoint = DEVICES_URL.to_owned();
    endpoint.append(device_id);
    endpoint.append("/push");
    PushRequest {
        endpoint,
        device_id: device_id.to_owned(),
        installation_id: INSTALLATION.to_owned(),
        image: encode_base64(file_contents),
        background: true,
    }
}

/// Whether the service took the request: it answers 200 where it did.
pub fn delivered(status: u16) -> (ok: bool)
    ensures
        ok == (status == 200),
{
    status == 200
}

} // verus!
