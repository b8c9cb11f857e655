use vstd::prelude::*;
use vstd::string::StringExecFns;

verus! {

/// What the server answers to a request line.
#[derive(Clone, Copy, PartialEq, Eq, Debug, Structural)]
pub enum Route {
    /// The front page.
    Hello,
    /// The front page, served after a pause.
    SlowHello,
    /// Anything else: the error page.
    NotFound,
}

/// The route of a request line: the two known lines, letter for letter, and
/// the error page for every other line.
pub open spec fn route_of(request_line: Seq<char>) -> Route {
    if request_line == "GET / HTTP/1.1"@ {
        Route::Hello
    } else if request_line == "GET /sleep HTTP/1.1"@ {
        Route::SlowHello
    } else {
        Route::NotFound
    }
}

impl Route {
    /// The status line of the answer.
    pub open spec fn spec_status_line(self) -> Seq<char> {
        match self {
            Route::Hello => "HTTP/1.1 200 OK"@,
            Route::SlowHello => "HTTP/1.1 200 OK"@,
            Route::NotFound => "HTTP/1.1 404 NOT FOUND"@,
        }
    }

    /// The name of the file that holds the answer's body.
    pub open spec fn spec_filename(self) -> Seq<char> {
        match self {
            Route::Hello => "hello.html"@,
            Route::SlowHello => "hello.html"@,
            Route::NotFound => "404.html"@,
        }
    }

    /// The seconds to let pass before the answer is sent.
    pub open spec fn spec_delay_secs(self) -> nat {
        match self {
            Route::Hello => 0,
            Route::SlowHello => 5,
            Route::NotFound => 0,
        }
    }

    /// The status line of the answer.
    pub fn status_line(&self) -> (line: &'static str)
        ensures
            line@ == self.spec_status_line(),
    {
        match self {
            Route::Hello => "HTTP/1.1 200 OK",
            Route::SlowHello => "HTTP/1.1 200 OK",
            Route::NotFound => "HTTP/1.1 404 NOT FOUND",
        }
    }

    /// The name of the file that holds the answer's body.
    pub fn filename(&self) -> (name: &'static str)
        ensures
            name@ == self.spec_filename(),
    {
        match self {
            Route::Hello => "hello.html",
            Route::SlowHello => "hello.html",
            Route::NotFound => "404.html",
        }
    }

    /// The seconds to let pass before the answer is sent.
    pub fn delay_secs(&self) -> (secs: u64)
        ensures
            secs == self.spec_delay_secs(),
    {
        match self {
            Route::Hello => 0,
            Route::SlowHello => 5,
            Route::NotFound => 0,
        }
    }
}

/// Picks the answer to the first line of a request.
pub fn route(request_line: &str) -> (route: Route)
    ensures
        route == route_of(request_line@),
{
    let line = request_line.to_owned();
    if line == "GET / HTTP/1.1".to_owned() {
        Route::Hello
    } else if line == "GET /sleep HTTP/1.1".to_owned() {
        Route::SlowHello
    } else {
        Route::NotFound
    }
}

/// The decimal digit that stands for `digit`.
pub open spec fn digit_char(digit: nat) -> char {
    if digit == 0 {
        '0'
    } else if digit == 1 {
        '1'
    } else if digit == 2 {
        '2'
    } else if digit == 3 {
        '3'
    } else if digit == 4 {
        '4'
    } else if digit == 5 {
        '5'
    } else if digit == 6 {
        '6'
    } else if digit == 7 {
        '7'
    } else if digit == 8 {
        '8'
    } else {
        '9'
    }
}

/// `n` in decimal notation, without leading zeros.
pub open spec fn decimal_digits(n: nat) -> Seq<char>
    decreases n,
{
    if n < 10 {
        seq![digit_char(n)]
    } else {
        decimal_digits(n / 10).push(digit_char(n % 10))
    }
}

fn digit_str(digit: usize) -> (text: &'static str)
    requires
        digit < 10,
    ensures
        text@ == seq![digit_char(digit as nat)],
{
    proof {
        reveal_strlit("0");
        reveal_strlit("1");
        reveal_strlit("2");
        reveal_strlit("3");
        reveal_strlit("4");
        reveal_strlit("5");
        reveal_strlit("6");
        reveal_strlit("7");
        reveal_strlit("8");
        reveal_strlit("9");
    }
    let text = if digit == 0 {
        "0"
    } else if digit == 1 {
        "1"
    } else if digit == 2 {
        "2"
    } else if digit == 3 {
        "3"
    } else if digit == 4 {
        "4"
    } else if digit == 5 {
        "5"
    } else if digit == 6 {
        "6"
    } else if digit == 7 {
        "7"
    } else if digit == 8 {
        "8"
    } else {
        "9"
    };
    assert(text@ =~= seq![digit_char(digit as nat)]);
    text
}

/// Writes `n` in decimal notation.
pub fn decimal(n: usize) -> (text: String)
    ensures
        text@ == decimal_digits(n as nat),
    decreases n,
{
    if n < 10 {
        digit_str(n).to_owned()
    } else {
        let text = decimal(n / 10).concat(digit_str(n % 10));
        assert(text@ =~= decimal_digits(n as nat));
        text
    }
}

/// The answer to send: the status line, the length of the body, an empty
/// line, and the body.
pub open spec fn response_of(status_line: Seq<char>, length: nat, contents: Seq<char>) -> Seq<
    char,
> {
    status_line + "\r\nContent-Length: "@ + decimal_digits(length) + "\r\n\r\n"@ + contents
}

/// Builds the answer from its status line and its body, whose length is
/// counted in bytes.
pub fn response(status_line: &str, contents: &str) -> (text: String)
    ensures
        text@ == response_of(status_line@, contents.len() as nat, contents@),
{
    let length = contents.len();
    let mut text = status_line.to_owned();
    text.append("\r\nContent-Length: ");
    text.append(decimal(length).as_str());
    text.append("\r\n\r\n");
    text.append(contents);
    text
}

/// The body that is sent where the file of a route cannot be read.
pub open spec fn unreadable_file_body(filename: Seq<char>) -> Seq<char> {
    "Error parsing "@ + filename + ". Is the name correct?"@
}

/// Builds the body that is sent where the file `filename` cannot be read.
pub fn unreadable_file(filename: &str) -> (text: String)
    ensures
        text@ == unreadable_file_body(filename@),
{
    let mut text = "Error parsing ".to_owned();
    text.append(filename);
    text.append(". Is the name correct?");
    text
}

} // verus!
