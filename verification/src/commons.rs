use vstd::prelude::*;

verus! {

/// The errors that the service answers with, each with its HTTP status and
/// message.
#[derive(PartialEq, Eq, Structural, Clone, Copy, Debug)]
pub enum ApiError {
    /// A write without the right API key: 401 "Unauthorized".
    Unauthorized,
    /// No user matches: 404 "User not found".
    UserNotFound,
    /// The stored password hash cannot be read: 500 "Invalid password hash".
    InvalidPasswordHash,
    /// The password does not match: 401 "Invalid credentials".
    InvalidCredentials,
    /// The session token is missing, malformed, forged or expired:
    /// 401 "Token missing or invalid".
    InvalidToken,
    /// The refresh token is unknown or has expired:
    /// 401 "Refresh token expired or not found".
    RefreshTokenInvalid,
    /// No stored file matches: 404 "Not found".
    NotFound,
    /// An upload without its `file` field: 400 " file required".
    FileRequired,
    /// A fixed regular expression or the password hasher failed:
    /// 500 "Internal error".
    Internal,
}

impl ApiError {
    /// The HTTP status of this error.
    pub open spec fn spec_status(self) -> u16 {
        match self {
            ApiError::Unauthorized => 401,
            ApiError::UserNotFound => 404,
            ApiError::InvalidPasswordHash => 500,
            ApiError::InvalidCredentials => 401,
            ApiError::InvalidToken => 401,
            ApiError::RefreshTokenInvalid => 401,
            ApiError::NotFound => 404,
            ApiError::FileRequired => 400,
            ApiError::Internal => 500,
        }
    }

    /// The HTTP status of this error.
    pub fn status(&self) -> (s: u16)
        ensures
            s == self.spec_status(),
    {
        match self {
            ApiError::Unauthorized => 401,
            ApiError::UserNotFound => 404,
            ApiError::InvalidPasswordHash => 500,
            ApiError::InvalidCredentials => 401,
            ApiError::InvalidToken => 401,
            ApiError::RefreshTokenInvalid => 401,
            ApiError::NotFound => 404,
            ApiError::FileRequired => 400,
            ApiError::Internal => 500,
        }
    }

    /// The message of this error.
    pub open spec fn spec_message(self) -> Seq<char> {
        match self {
            ApiError::Unauthorized => seq!['U', 'n', 'a', 'u', 't', 'h', 'o', 'r', 'i', 'z', 'e', 'd'],
            ApiError::UserNotFound => seq!['U', 's', 'e', 'r', ' ', 'n', 'o', 't', ' ', 'f', 'o', 'u', 'n', 'd'],
            ApiError::InvalidPasswordHash => seq!['I', 'n', 'v', 'a', 'l', 'i', 'd', ' ', 'p', 'a', 's', 's', 'w', 'o', 'r', 'd', ' ', 'h', 'a', 's', 'h'],
            ApiError::InvalidCredentials => seq!['I', 'n', 'v', 'a', 'l', 'i', 'd', ' ', 'c', 'r', 'e', 'd', 'e', 'n', 't', 'i', 'a', 'l', 's'],
            ApiError::InvalidToken => seq!['T', 'o', 'k', 'e', 'n', ' ', 'm', 'i', 's', 's', 'i', 'n', 'g', ' ', 'o', 'r', ' ', 'i', 'n', 'v', 'a', 'l', 'i', 'd'],
            ApiError::RefreshTokenInvalid => seq!['R', 'e', 'f', 'r', 'e', 's', 'h', ' ', 't', 'o', 'k', 'e', 'n', ' ', 'e', 'x', 'p', 'i', 'r', 'e', 'd', ' ', 'o', 'r', ' ', 'n', 'o', 't', ' ', 'f', 'o', 'u', 'n', 'd'],
            ApiError::NotFound => seq!['N', 'o', 't', ' ', 'f', 'o', 'u', 'n', 'd'],
            ApiError::FileRequired => seq![' ', 'f', 'i', 'l', 'e', ' ', 'r', 'e', 'q', 'u', 'i', 'r', 'e', 'd'],
            ApiError::Internal => seq!['I', 'n', 't', 'e', 'r', 'n', 'a', 'l', ' ', 'e', 'r', 'r', 'o', 'r'],
        }
    }

    /// The message that the error response carries.
    pub fn message(&self) -> (m: &'static str)
        ensures
            m@ == self.spec_message(),
    {
        match self {
            ApiError::Unauthorized => {
                proof {
                    reveal_strlit("Unauthorized");
                }
                "Unauthorized"
            },
            ApiError::UserNotFound => {
                proof {
                    reveal_strlit("User not found");
                }
                "User not found"
            },
            ApiError::InvalidPasswordHash => {
                proof {
                    reveal_strlit("Invalid password hash");
                }
                "Invalid password hash"
            },
            ApiError::InvalidCredentials => {
                proof {
                    reveal_strlit("Invalid credentials");
                }
                "Invalid credentials"
            },
            ApiError::InvalidToken => {
                proof {
                    reveal_strlit("Token missing or invalid");
                }
                "Token missing or invalid"
            },
            ApiError::RefreshTokenInvalid => {
                proof {
                    reveal_strlit("Refresh token expired or not found");
                }
                "Refresh token expired or not found"
            },
            ApiError::NotFound => {
                proof {
                    reveal_strlit("Not found");
                }
                "Not found"
            },
            ApiError::FileRequired => {
                proof {
                    reveal_strlit(" file required");
                }
                " file required"
            },
            ApiError::Internal => {
                proof {
                    reveal_strlit("Internal error");
                }
                "Internal error"
            },
        }
    }
}

/// Whether two strings hold the same chars.
pub fn same_text(a: &str, b: &str) -> (r: bool)
    ensures
        r == (a@ == b@),
{
    let n = a.unicode_len();
    if n != b.unicode_len() {
        return false;
    }
    let mut i: usize = 0;
    while i < n
        invariant
            n == a@.len(),
            n == b@.len(),
            i <= n,
            forall|k: int| 0 <= k < i ==> a@[k] == b@[k],
        decreases n - i,
    {
        if a.get_char(i) != b.get_char(i) {
            return false;
        }
        i = i + 1;
    }
    assert(a@ =~= b@);
    true
}

/// The API key check of a write request: a request without the key, or with
/// anything but the configured key, is refused with `ApiError::Unauthorized`.
pub fn check_key(request_key: Option<&str>, api_key: &str) -> (r: Option<ApiError>)
    ensures
        request_key is None ==> r == Some(ApiError::Unauthorized),
        r is None <==> (request_key matches Some(k) && k@ == api_key@),
        r is Some ==> r == Some(ApiError::Unauthorized),
{
    match request_key {
        Some(given) => {
            if same_text(given, api_key) {
                None
            } else {
                Some(ApiError::Unauthorized)
            }
        },
        None => Some(ApiError::Unauthorized),
    }
}

/// The name of the header that carries the API key.
pub fn api_key_header() -> (h: &'static str)
    ensures
        h@ == seq!['x', '-', 'm', 'u', 'g', 'u', 'n', 'g', 'h', 'w', 'a', '-', 'k', 'e', 'y'],
{
    proof {
        reveal_strlit("x-mugunghwa-key");
    }
    "x-mugunghwa-key"
}

/// The CORS headers that every response carries, as (name, value) pairs:
/// any origin, the methods GET, OPTIONS, POST and PATCH, and the headers
/// Content-Type and x-mugunghwa-key.
pub fn cors_headers() -> (hs: Vec<(&'static str, &'static str)>)
    ensures
        hs@.len() == 3,
        hs@[0].0@ == seq!['A', 'c', 'c', 'e', 's', 's', '-', 'C', 'o', 'n', 't', 'r', 'o', 'l', '-', 'A', 'l', 'l', 'o', 'w', '-', 'O', 'r', 'i', 'g', 'i', 'n'],
        hs@[0].1@ == seq!['*'],
        hs@[1].0@ == seq!['A', 'c', 'c', 'e', 's', 's', '-', 'C', 'o', 'n', 't', 'r', 'o', 'l', '-', 'A', 'l', 'l', 'o', 'w', '-', 'M', 'e', 't', 'h', 'o', 'd', 's'],
        hs@[1].1@ == seq!['G', 'E', 'T', ',', ' ', 'O', 'P', 'T', 'I', 'O', 'N', 'S', ',', ' ', 'P', 'O', 'S', 'T', ',', ' ', 'P', 'A', 'T', 'C', 'H'],
        hs@[2].0@ == seq!['A', 'c', 'c', 'e', 's', 's', '-', 'C', 'o', 'n', 't', 'r', 'o', 'l', '-', 'A', 'l', 'l', 'o', 'w', '-', 'H', 'e', 'a', 'd', 'e', 'r', 's'],
        hs@[2].1@ == seq!['C', 'o', 'n', 't', 'e', 'n', 't', '-', 'T', 'y', 'p', 'e', ',', ' ', 'x', '-', 'm', 'u', 'g', 'u', 'n', 'g', 'h', 'w', 'a', '-', 'k', 'e', 'y'],
{
    proof {
        reveal_strlit("Access-Control-Allow-Origin");
        reveal_strlit("*");
        reveal_strlit("Access-Control-Allow-Methods");
        reveal_strlit("GET, OPTIONS, POST, PATCH");
        reveal_strlit("Access-Control-Allow-Headers");
        reveal_strlit("Content-Type, x-mugunghwa-key");
    }
    let mut hs: Vec<(&'static str, &'static str)> = Vec::new();
    hs.push(("Access-Control-Allow-Origin", "*"));
    hs.push(("Access-Control-Allow-Methods", "GET, OPTIONS, POST, PATCH"));
    hs.push(("Access-Control-Allow-Headers", "Content-Type, x-mugunghwa-key"));
    hs
}

} // verus!
