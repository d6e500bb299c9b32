use vstd::prelude::*;

verus! {

/// The character for a single decimal digit.
pub open spec fn spec_digit(d: nat) -> char {
    if d == 0 {
        '0'
    } else if d == 1 {
        '1'
    } else if d == 2 {
        '2'
    } else if d == 3 {
        '3'
    } else if d == 4 {
        '4'
    } else if d == 5 {
        '5'
    } else if d == 6 {
        '6'
    } else if d == 7 {
        '7'
    } else if d == 8 {
        '8'
    } else {
        '9'
    }
}

/// The decimal rendering of `n`, most significant digit first, with no
/// leading zero except for zero itself.
pub open spec fn spec_decimal(n: nat) -> Seq<char>
    decreases n,
{
    if n < 10 {
        seq![spec_digit(n)]
    } else {
        spec_decimal(n / 10).push(spec_digit(n % 10))
    }
}

fn digit_str(d: u64) -> (r: &'static str)
    requires
        d < 10,
    ensures
        r@ =~= seq![spec_digit(d as nat)],
{
    let r: &'static str = if d == 0 {
        "0"
    } else if d == 1 {
        "1"
    } else if d == 2 {
        "2"
    } else if d == 3 {
        "3"
    } else if d == 4 {
        "4"
    } else if d == 5 {
        "5"
    } else if d == 6 {
        "6"
    } else if d == 7 {
        "7"
    } else if d == 8 {
        "8"
    } else {
        "9"
    };
    proof {
        reveal_strlit("0");
        reveal_strlit("1");
        reveal_strlit("2");
        reveal_strlit("3");
        reveal_strlit("4");
        reveal_strlit("5");
        reveal_strlit("6");
        reveal_strlit("7");
        reveal_strlit("8");
        reveal_strlit("9");
    }
    r
}

/// Renders `n` in decimal.
pub fn u64_to_string(n: u64) -> (r: String)
    ensures
        r@ == spec_decimal(n as nat),
    decreases n,
{
    if n < 10 {
        String::from_str(digit_str(n))
    } else {
        let mut s = u64_to_string(n / 10);
        s.append(digit_str(n % 10));
        proof {
            assert(spec_decimal((n / 10) as nat) + seq![spec_digit((n % 10) as nat)]
                =~= spec_decimal((n / 10) as nat).push(spec_digit((n % 10) as nat)));
        }
        s
    }
}

/// The body of the "files moved" notification: the count, a space, and
/// `file` or its plural as the count asks.
pub open spec fn spec_moved_body(n: nat) -> Seq<char> {
    spec_decimal(n) + seq![' '] + (if n == 1 {
        "file"@
    } else {
        "files"@
    })
}

/// The notification a finished batch earns: nothing when no file was
/// moved; otherwise the summary `Moved` and a body giving the count,
/// pluralized.
pub fn moved_message(count: usize) -> (r: Option<(String, String)>)
    ensures
        count == 0 <==> r is None,
        r matches Some(m) ==> m.0@ == "Moved"@ && m.1@ == spec_moved_body(count as nat),
{
    if count == 0 {
        return None;
    }
    let mut body = u64_to_string(count as u64);
    body.append(" ");
    if count == 1 {
        body.append("file");
    } else {
        body.append("files");
    }
    proof {
        reveal_strlit(" ");
        assert(" "@ =~= seq![' ']);
        assert(spec_decimal(count as nat) + seq![' '] + (if count == 1 {
            "file"@
        } else {
            "files"@
        }) =~= (spec_decimal(count as nat) + " "@) + (if count == 1 {
            "file"@
        } else {
            "files"@
        }));
    }
    Some((String::from_str("Moved"), body))
}

/// The label shown beside the tray icon: the application's name and
/// version, with a suffix when running as a supervised service.
pub open spec fn spec_tray_label(name: Seq<char>, version: Seq<char>, service: bool) -> Seq<char> {
    name + " v"@ + version + (if service {
        " - systemd"@
    } else {
        Seq::<char>::empty()
    })
}

/// Renders the tray label for an application name and version.
pub fn tray_label(name: &str, version: &str, service: bool) -> (r: String)
    ensures
        r@ == spec_tray_label(name@, version@, service),
{
    let mut r = String::from_str(name);
    r.append(" v");
    r.append(version);
    if service {
        r.append(" - systemd");
    }
    proof {
        assert(name@ + " v"@ + version@ + Seq::<char>::empty() =~= (name@ + " v"@) + version@);
        assert(name@ + " v"@ + version@ + " - systemd"@ =~= ((name@ + " v"@) + version@)
            + " - systemd"@);
    }
    r
}

} // verus!
