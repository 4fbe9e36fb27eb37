use orgbrain::email::{
    comes_before, employee_merge, extract_emails, insert_sorted, parse_email_blob,
    parse_many_recipients, parse_name_email, plan_import, EmployeeMerge, ParsedEmail,
};
use orgbrain::text::{join, lines, split, split_once, trim_matches};

fn strings(v: &[&str]) -> Vec<String> {
    v.iter().map(|s| s.to_string()).collect()
}

#[test]
fn split_once_cuts_at_the_first_occurrence() {
    assert_eq!(split_once("Subject: a: b", ':'), Some(("Subject".to_string(), " a: b".to_string())));
    assert_eq!(split_once(":x", ':'), Some((String::new(), "x".to_string())));
    assert_eq!(split_once("x:", ':'), Some(("x".to_string(), String::new())));
    assert_eq!(split_once("no colon", ':'), None);
    assert_eq!(split_once("", ':'), None);
}

#[test]
fn split_agrees_with_the_standard_library() {
    for s in ["a,b,c", "", ",", "a,,b,", ",a", "no comma", "é,ü"] {
        let expected: Vec<String> = s.split(',').map(|p| p.to_string()).collect();
        assert_eq!(split(s, ','), expected);
    }
    assert_eq!(split("a,,b,", ','), strings(&["a", "", "b", ""]));
}

#[test]
fn lines_agree_with_the_standard_library() {
    for s in [
        "", "a", "a\n", "a\nb", "a\n\nb\n", "\n", "\n\n", "a\r\nb\r\n", "a\r", "a\r\n\r\nb", "\r\n",
        "a\rb\n", "x\n\r", "\r",
    ] {
        let expected: Vec<String> = s.lines().map(|l| l.to_string()).collect();
        assert_eq!(lines(s), expected);
    }
    assert_eq!(lines("a\r\n\nb\r"), strings(&["a", "", "b\r"]));
}

#[test]
fn trim_matches_strips_both_edges() {
    for (s, c) in [("<<a<b>>", '<'), ("\"Doe, John\"", '"'), ("\"\"", '"'), ("", '"'), ("a", 'a'), ("xay", 'a')] {
        assert_eq!(trim_matches(s, c), s.trim_matches(c));
    }
    assert_eq!(trim_matches("<<a<b>>", '<'), "a<b>>");
    assert_eq!(trim_matches("\"Doe, John\"", '"'), "Doe, John");
}

#[test]
fn join_puts_the_separator_between() {
    assert_eq!(join(&strings(&["a", "b", "c"]), "\n"), "a\nb\nc");
    assert_eq!(join(&strings(&["a"]), ", "), "a");
    assert_eq!(join(&strings(&["", ""]), "-"), "-");
    assert_eq!(join(&Vec::new(), ", "), "");
}

#[test]
fn comes_before_is_the_order_of_strings() {
    let samples = ["", "a", "ab", "b", "B", "a.b", "aé", "az", "é", "ab@c.d"];
    for a in samples {
        for b in samples {
            assert_eq!(comes_before(a, b), a < b);
        }
    }
}

#[test]
fn insert_sorted_keeps_order_without_repetition() {
    let mut v = Vec::new();
    for x in ["m", "c", "x", "c", "a", "m", "z", "b"] {
        insert_sorted(&mut v, x.to_string());
    }
    assert_eq!(v, strings(&["a", "b", "c", "m", "x", "z"]));
}

#[test]
fn extract_emails_finds_sorts_and_dedups() {
    assert_eq!(
        extract_emails("to: Zed@Example.com, amy@example.com; cc zed@example.com <bob.smith@corp.example.org>"),
        strings(&["amy@example.com", "bob.smith@corp.example.org", "zed@example.com"])
    );
    assert_eq!(extract_emails("no address here"), Vec::<String>::new());
    assert_eq!(extract_emails("@"), Vec::<String>::new());
    assert_eq!(extract_emails("a@"), Vec::<String>::new());
    assert_eq!(extract_emails("@b.c"), Vec::<String>::new());
    // An address needs a dot somewhere.
    assert_eq!(extract_emails("user@host"), Vec::<String>::new());
    assert_eq!(extract_emails("first.last@host"), strings(&["first.last@host"]));
    // The search goes on at the end of an address; a second @ there reaches back into it.
    assert_eq!(extract_emails("a@b.c@d.e"), strings(&["a@b.c", "b.c@d.e"]));
    // Behind an address without a dot the search goes on as well.
    assert_eq!(extract_emails("a@b c.d@e.f"), strings(&["c.d@e.f"]));
    assert_eq!(extract_emails("é-x_1@y-2.z!"), strings(&["-x_1@y-2.z"]));
}

#[test]
fn name_and_address_with_angle_brackets() {
    assert_eq!(
        parse_name_email("  \"Doe, John\" <John.Doe@Example.COM>  "),
        Some((Some("john.doe@example.com".to_string()), Some("Doe, John".to_string())))
    );
    assert_eq!(
        parse_name_email("<a@b.c>"),
        Some((Some("a@b.c".to_string()), None))
    );
    assert_eq!(
        parse_name_email("Amy < Amy@B.c "),
        Some((Some("amy@b.c".to_string()), Some("Amy".to_string())))
    );
    assert_eq!(parse_name_email("\"\" <x@y.z> trailing"), Some((Some("x@y.z".to_string()), None)));
}

#[test]
fn name_and_address_without_angle_brackets() {
    assert_eq!(parse_name_email("Amy@Example.com"), Some((Some("amy@example.com".to_string()), None)));
    assert_eq!(parse_name_email("write to amy@example.com please"), Some((Some("amy@example.com".to_string()), None)));
    assert_eq!(parse_name_email("a@b.c and d@e.f"), Some((None, None)));
    assert_eq!(parse_name_email("nobody"), Some((None, None)));
    assert_eq!(parse_name_email("   "), None);
    assert_eq!(parse_name_email(""), None);
}

#[test]
fn recipients_are_read_part_by_part() {
    assert_eq!(
        parse_many_recipients("Amy <amy@x.io>, bob@x.io, , nobody, c@x.io d@x.io, \"Zed\" <Z@X.io>"),
        vec![
            ("amy@x.io".to_string(), Some("Amy".to_string())),
            ("bob@x.io".to_string(), None),
            ("c@x.io".to_string(), None),
            ("d@x.io".to_string(), None),
            ("z@x.io".to_string(), Some("Zed".to_string())),
        ]
    );
    assert_eq!(parse_many_recipients(""), Vec::new());
    assert_eq!(parse_many_recipients(" , ,"), Vec::new());
}

#[test]
fn a_message_is_read_into_headers_and_body() {
    let message = "Message-ID: <123.abc@mail>\r\nDate: Mon, 1 Jan 2001\r\nFrom: amy@x.io\r\n\
                   To: bob@x.io, Carl <carl@x.io>\r\nCc: dan@x.io\r\nSubject: Q3 Budget\r\n\
                   X-From: Amy Adams\r\nIgnored line without colon\r\nTo: eve@x.io\r\n\r\n\
                   Hello Bob,\r\n\r\nSubject: not a header\r\nBye\r\n";
    assert_eq!(
        parse_email_blob(message),
        ParsedEmail {
            message_id: Some("123.abc@mail".to_string()),
            date: Some("Mon, 1 Jan 2001".to_string()),
            subject: Some("Q3 Budget".to_string()),
            from_email: Some("amy@x.io".to_string()),
            from_name: Some("Amy Adams".to_string()),
            // The second `To` line is appended to the first after a space, not a comma,
            // so its address ends up in the part that names Carl.
            to_emails: vec![
                ("bob@x.io".to_string(), None),
                ("carl@x.io".to_string(), Some("Carl".to_string())),
                ("dan@x.io".to_string(), None),
            ],
            body: "Hello Bob,\n\nSubject: not a header\nBye".to_string(),
        }
    );
}

#[test]
fn a_message_without_headers_of_interest() {
    assert_eq!(
        parse_email_blob("\nonly a body"),
        ParsedEmail {
            message_id: None,
            date: None,
            subject: None,
            from_email: None,
            from_name: None,
            to_emails: Vec::new(),
            body: "only a body".to_string(),
        }
    );
    let p = parse_email_blob("From: \"Amy\" <amy@x.io>\nBcc: b@x.io");
    assert_eq!(p.from_email, Some("amy@x.io".to_string()));
    assert_eq!(p.from_name, Some("Amy".to_string()));
    assert_eq!(p.to_emails, vec![("b@x.io".to_string(), None)]);
    assert_eq!(p.body, "");
    assert_eq!(parse_email_blob("").body, "");
}

#[test]
fn employees_are_merged_under_canonical_ids() {
    assert_eq!(
        employee_merge(" Amy@X.io ", Some("  Amy Adams ")),
        EmployeeMerge {
            employee_id: "employee_email_amy_x_io".to_string(),
            name: "Amy Adams".to_string(),
            email: "amy@x.io".to_string(),
        }
    );
    assert_eq!(employee_merge(" Amy@X.io ", Some("  ")).name, "Amy@X.io");
    assert_eq!(employee_merge("b@x.io", None).name, "b@x.io");
}

#[test]
fn an_import_is_planned_from_a_record() {
    assert_eq!(plan_import("file-1", "   \n "), None);
    let i = plan_import(
        "file-1",
        "From: Amy <amy@x.io>\nTo: bob@x.io, Carl <carl@x.io>\nSubject:  Re: Budget \nDate: today\n\nbody text",
    )
    .unwrap();
    assert_eq!(i.message_id, "file-1");
    assert_eq!(i.file, "file-1");
    assert_eq!(i.subject, "Re: Budget");
    assert_eq!(i.date, "today");
    assert_eq!(i.from_employee_id, "employee_email_amy_x_io");
    assert_eq!(i.to_employee_ids, strings(&["employee_email_bob_x_io", "employee_email_carl_x_io"]));
    assert_eq!(i.topic_ids, strings(&["re: budget"]));
    assert_eq!(i.body, "body text");
    let names: Vec<(&str, &str)> = i.merges.iter().map(|m| (m.employee_id.as_str(), m.name.as_str())).collect();
    assert_eq!(
        names,
        vec![
            ("employee_email_amy_x_io", "Amy"),
            ("employee_email_bob_x_io", "bob@x.io"),
            ("employee_email_carl_x_io", "Carl"),
        ]
    );
    let anonymous = plan_import("f", "Message-Id: <m1>\n\nx").unwrap();
    assert_eq!(anonymous.message_id, "m1");
    assert_eq!(anonymous.from_employee_id, "employee_email_unknown");
    assert!(anonymous.merges.is_empty());
    assert_eq!(anonymous.topic_ids, strings(&["(no subject)"]));
}
