use vstd::prelude::*;

verus! {

/// What a request asks for, as far as the server tells requests apart.
#[derive(Clone, Copy, Debug, PartialEq, Eq, Structural)]
pub enum Route {
    /// The root page.
    Home,
    /// The root page, served after a pause.
    Sleep,
    /// Anything else.
    NotFound,
}

/// The request line that asks for the root page.
pub open spec fn home_line() -> Seq<char> {
    "GET / HTTP/1.1\r\n"@
}

/// The request line that asks for the slow page.
pub open spec fn sleep_line() -> Seq<char> {
    "GET /sleep HTTP/1.1\r\n"@
}

/// Whether `bytes` begins with the characters of `text`, one byte for each.
pub open spec fn begins_with(bytes: Seq<u8>, text: Seq<char>) -> bool {
    text.len() <= bytes.len() && forall|i: int|
        0 <= i < text.len() ==> #[trigger] bytes[i] == text[i] as u8
}

/// The route of a request, given by the bytes that were read of it.
pub open spec fn route_of(request: Seq<u8>) -> Route {
    if begins_with(request, home_line()) {
        Route::Home
    } else if begins_with(request, sleep_line()) {
        Route::Sleep
    } else {
        Route::NotFound
    }
}

/// The decimal digit for `d`, which is below ten.
pub open spec fn digit(d: nat) -> char {
    if d == 0 {
        '0'
    } else if d == 1 {
        '1'
    } else if d == 2 {
        '2'
    } else if d == 3 {
        '3'
    } else if d == 4 {
        '4'
    } else if d == 5 {
        '5'
    } else if d == 6 {
        '6'
    } else if d == 7 {
        '7'
    } else if d == 8 {
        '8'
    } else {
        '9'
    }
}

/// `n` written in decimal, without leading zeros.
pub open spec fn decimal(n: nat) -> Seq<char>
    decreases n,
{
    if n < 10 {
        seq![digit(n)]
    } else {
        decimal(n / 10).push(digit(n % 10))
    }
}

/// The text of a response: the status line, the length of the body in
/// bytes as its only header, an empty line, and the body.
pub open spec fn response_text(status_line: Seq<char>, length: nat, body: Seq<char>) -> Seq<
    char,
> {
    status_line + "\r\nContent-Length: "@ + decimal(length) + "\r\n\r\n"@ + body
}

impl Route {
    /// The status line of the response.
    pub fn status_line(&self) -> (line: &'static str)
        ensures
            line@ == (if *self == Route::NotFound {
                "HTTP/1.1 404 Not Found"@
            } else {
                "HTTP/1.1 200 OK"@
            }),
    {
        match self {
            Route::Home => "HTTP/1.1 200 OK",
            Route::Sleep => "HTTP/1.1 200 OK",
            Route::NotFound => "HTTP/1.1 404 Not Found",
        }
    }

    /// The name of the file whose contents are the body of the response.
    pub fn page(&self) -> (name: &'static str)
        ensures
            name@ == (if *self == Route::NotFound {
                "404.html"@
            } else {
                "hello.html"@
            }),
    {
        match self {
            Route::Home => "hello.html",
            Route::Sleep => "hello.html",
            Route::NotFound => "404.html",
        }
    }

    /// For how many seconds the server waits before it answers.
    pub fn delay_seconds(&self) -> (seconds: u64)
        ensures
            seconds == (if *self == Route::Sleep {
                5u64
            } else {
                0u64
            }),
    {
        match self {
            Route::Home => 0,
            Route::Sleep => 5,
            Route::NotFound => 0,
        }
    }
}

/// Whether `bytes` begins with `text`, which holds ASCII characters only.
fn starts_with(bytes: &[u8], text: &str) -> (found: bool)
    requires
        vstd::string::is_ascii(text),
    ensures
        found == begins_with(bytes@, text@),
{
    let wanted = text.as_bytes();
    proof {
        vstd::string::is_ascii_spec_bytes(text);
    }
    if wanted.len() > bytes.len() {
        return false;
    }
    let mut i: usize = 0;
    while i < wanted.len()
        invariant
            i <= wanted.len() <= bytes.len(),
            wanted@ == Seq::new(text@.len(), |k: int| text@[k] as u8),
            forall|k: int| 0 <= k < i ==> #[trigger] bytes@[k] == text@[k] as u8,
        decreases wanted.len() - i,
    {
        if bytes[i] != wanted[i] {
            return false;
        }
        i += 1;
    }
    true
}

/// Tells what the request in `request` asks for, by its first line: the
/// root page, the slow page, or something that the server does not have.
pub fn classify(request: &[u8]) -> (route: Route)
    ensures
        route == route_of(request@),
{
    proof {
        reveal_strlit("GET / HTTP/1.1\r\n");
        reveal_strlit("GET /sleep HTTP/1.1\r\n");
    }
    if starts_with(request, "GET / HTTP/1.1\r\n") {
        Route::Home
    } else if starts_with(request, "GET /sleep HTTP/1.1\r\n") {
        Route::Sleep
    } else {
        Route::NotFound
    }
}

/// The text of the one decimal digit for `d`.
fn digit_text(d: usize) -> (text: &'static str)
    requires
        d < 10,
    ensures
        text@ == seq![digit(d as nat)],
{
    proof {
        reveal_strlit("0");
        reveal_strlit("1");
        reveal_strlit("2");
        reveal_strlit("3");
        reveal_strlit("4");
        reveal_strlit("5");
        reveal_strlit("6");
        reveal_strlit("7");
        reveal_strlit("8");
        reveal_strlit("9");
    }
    if d == 0 {
        "0"
    } else if d == 1 {
        "1"
    } else if d == 2 {
        "2"
    } else if d == 3 {
        "3"
    } else if d == 4 {
        "4"
    } else if d == 5 {
        "5"
    } else if d == 6 {
        "6"
    } else if d == 7 {
        "7"
    } else if d == 8 {
        "8"
    } else {
        "9"
    }
}

/// Writes `n` in decimal, without leading zeros.
pub fn decimal_text(n: usize) -> (text: String)
    ensures
        text@ == decimal(n as nat),
    decreases n,
{
    if n < 10 {
        String::from_str(digit_text(n))
    } else {
        let mut text = decimal_text(n / 10);
        text.append(digit_text(n % 10));
        text
    }
}

/// Builds the response to send: the status line, the length of `contents`
/// in bytes as the only header, an empty line, and `contents`.
pub fn response(status_line: &str, contents: &str) -> (text: String)
    ensures
        text@ == response_text(
            status_line@,
            vstd::utf8::encode_utf8(contents@).len(),
            contents@,
        ),
{
    let length = contents.as_bytes().len();
    let mut text = String::from_str(status_line);
    text.append("\r\nContent-Length: ");
    text.append(decimal_text(length).as_str());
    text.append("\r\n\r\n");
    text.append(contents);
    text
}

} // verus!
