//! Names and sizes that coordinator and plugins share.

use vstd::prelude::*;

verus! {

/// The directory name under the user's runtime directory.
pub const DOMAIN: &'static str = "com.bzglve";

/// The application identifier; the socket file is named after it.
pub const MAIN_APP_ID: &'static str = "com.bzglve.unirun";

/// The size of one message on the wire, in bytes.
pub const SOCKET_BUFFER_SIZE: usize = 4096;

} // verus!
