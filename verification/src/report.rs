//! The line that is shown for an outcome.

use crate::outcome::ScanOutcome;
use crate::outcome::ScanStatus;
use crate::outcome::StatusView;
use crate::text::chars_of;
use crate::text::trim;
use crate::text::trim_bounds;
use vstd::prelude::*;
use vstd::string::StrSliceExecFns;
use vstd::string::StringExecFns;

verus! {

/// The character that stands for a digit.
pub open spec fn digit_char(d: nat) -> char {
    if d == 0 {
        '0'
    } else if d == 1 {
        '1'
    } else if d == 2 {
        '2'
    } else if d == 3 {
        '3'
    } else if d == 4 {
        '4'
    } else if d == 5 {
        '5'
    } else if d == 6 {
        '6'
    } else if d == 7 {
        '7'
    } else if d == 8 {
        '8'
    } else {
        '9'
    }
}

/// A number in base ten, without leading zeros.
pub open spec fn decimal_text(n: nat) -> Seq<char>
    decreases n,
{
    if n < 10 {
        seq![digit_char(n)]
    } else {
        decimal_text(n / 10).push(digit_char(n % 10))
    }
}

/// The line for an attempt on `port` that ended with `status`: none for a
/// port that is closed or filtered, and for an open port its number,
/// followed by the banner without the white space around it if there is a
/// banner.
pub open spec fn line_for(port: u16, status: StatusView) -> Option<Seq<char>> {
    match status {
        StatusView::ClosedOrFiltered => None,
        StatusView::OpenNoBanner => Some("Port "@ + decimal_text(port as nat) + " is open"@),
        StatusView::OpenWithBanner(banner) => Some(
            "Port "@ + decimal_text(port as nat) + " is open - Banner: "@ + trim(banner),
        ),
    }
}

/// The text of one digit.
fn digit_str(d: u16) -> (s: &'static str)
    requires
        d < 10,
    ensures
        s@ == seq![digit_char(d as nat)],
{
    proof {
        reveal_strlit("0");
        reveal_strlit("1");
        reveal_strlit("2");
        reveal_strlit("3");
        reveal_strlit("4");
        reveal_strlit("5");
        reveal_strlit("6");
        reveal_strlit("7");
        reveal_strlit("8");
        reveal_strlit("9");
    }
    let s = if d == 0 {
        "0"
    } else if d == 1 {
        "1"
    } else if d == 2 {
        "2"
    } else if d == 3 {
        "3"
    } else if d == 4 {
        "4"
    } else if d == 5 {
        "5"
    } else if d == 6 {
        "6"
    } else if d == 7 {
        "7"
    } else if d == 8 {
        "8"
    } else {
        "9"
    };
    assert(s@ =~= seq![digit_char(d as nat)]);
    s
}

/// Writes a number in base ten.
pub fn decimal_string(n: u16) -> (s: String)
    ensures
        s@ == decimal_text(n as nat),
    decreases n,
{
    if n < 10 {
        String::from_str(digit_str(n))
    } else {
        let mut s = decimal_string(n / 10);
        s.append(digit_str(n % 10));
        assert(s@ =~= decimal_text(n as nat));
        s
    }
}

/// Makes the line that is shown for an outcome, if one is shown.
pub fn report_line(outcome: &ScanOutcome) -> (line: Option<String>)
    ensures
        match line_for(outcome.port, outcome.status@) {
            Some(text) => line is Some && line->0@ == text,
            None => line is None,
        },
        line is None <==> outcome.status@ is ClosedOrFiltered,
{
    match &outcome.status {
        ScanStatus::ClosedOrFiltered => None,
        ScanStatus::OpenNoBanner => {
            let mut line = String::from_str("Port ");
            line.append(decimal_string(outcome.port).as_str());
            line.append(" is open");
            Some(line)
        },
        ScanStatus::OpenWithBanner(banner) => {
            let chars = chars_of(banner.as_str());
            let bounds = trim_bounds(chars.as_slice());
            let mut line = String::from_str("Port ");
            line.append(decimal_string(outcome.port).as_str());
            line.append(" is open - Banner: ");
            line.append(banner.as_str().substring_char(bounds.0, bounds.1));
            Some(line)
        },
    }
}

} // verus!
