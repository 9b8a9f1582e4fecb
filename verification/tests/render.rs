use drdump::format::{format_bpftrace, format_reason, format_stap, num_digits, render_raw, u32_to_string};
use drdump::table::EnumTable;

fn table(pairs: &[(u32, &str)]) -> EnumTable {
    let mut t = EnumTable::new();
    for (code, name) in pairs {
        t.insert(*code, (*name).to_string());
    }
    t
}

#[test]
fn decimal_rendering() {
    assert_eq!(u32_to_string(0), "0");
    assert_eq!(u32_to_string(7), "7");
    assert_eq!(u32_to_string(10), "10");
    assert_eq!(u32_to_string(131077), "131077");
    assert_eq!(u32_to_string(4294967295), "4294967295");
}

#[test]
fn digit_counts() {
    assert_eq!(num_digits(0), 1);
    assert_eq!(num_digits(9), 1);
    assert_eq!(num_digits(10), 2);
    assert_eq!(num_digits(99), 2);
    assert_eq!(num_digits(100), 3);
    assert_eq!(num_digits(4294967295), 10);
}

#[test]
fn known_code_plain() {
    // A resolvable code without the verbose flag: exactly the bare name.
    let reasons = table(&[(2, "TCP_CSUM")]);
    let subsys = table(&[(0, "core")]);
    let r = format_reason(2, &reasons, Some(&subsys), false);
    assert_eq!(r, "TCP_CSUM");
}

#[test]
fn known_code_verbose_annotated() {
    let reasons = table(&[(2, "TCP_CSUM")]);
    let subsys = table(&[(0, "core")]);
    let r = format_reason(2, &reasons, Some(&subsys), true);
    assert_eq!(r, "TCP_CSUM (sub-system: core)");
}

#[test]
fn unknown_code_annotated_without_verbose() {
    // 0x00020005 is unknown; its upper bits name subsystem 2.
    let reasons = table(&[(0, "NOT_SPECIFIED")]);
    let subsys = table(&[(2, "wifi")]);
    let r = format_reason(0x00020005, &reasons, Some(&subsys), false);
    assert_eq!(r, "Unknown reason 131077 (sub-system: wifi)");
}

#[test]
fn unknown_code_without_subsystem_match() {
    let reasons = table(&[(0, "NOT_SPECIFIED")]);
    let subsys = table(&[(3, "can")]);
    let r = format_reason(0x00020005, &reasons, Some(&subsys), false);
    assert_eq!(r, "Unknown reason 131077");
}

#[test]
fn unknown_code_without_subsystem_table() {
    let reasons = table(&[(0, "NOT_SPECIFIED")]);
    let r = format_reason(5, &reasons, None, true);
    assert_eq!(r, "Unknown reason 5");
}

#[test]
fn known_code_verbose_without_subsystem_match() {
    let reasons = table(&[(2, "TCP_CSUM")]);
    let subsys = table(&[(9, "other")]);
    let r = format_reason(2, &reasons, Some(&subsys), true);
    assert_eq!(r, "TCP_CSUM");
}

#[test]
fn raw_lines_sorted_padded_unique() {
    let reasons = table(&[(100, "C_REASON"), (0, "A_REASON"), (5, "B_REASON")]);
    let lines = render_raw(&reasons, None, false);
    assert_eq!(
        lines,
        vec![
            "000 = A_REASON".to_string(),
            "005 = B_REASON".to_string(),
            "100 = C_REASON".to_string(),
        ]
    );
    // Codes come out strictly ascending, each exactly once.
    let codes: Vec<u32> = lines
        .iter()
        .map(|l| l.split(" = ").next().unwrap().parse::<u32>().unwrap())
        .collect();
    assert_eq!(codes, vec![0, 5, 100]);
}

#[test]
fn raw_single_entry_width_one() {
    let reasons = table(&[(3, "X")]);
    let lines = render_raw(&reasons, None, false);
    assert_eq!(lines, vec!["3 = X".to_string()]);
}

#[test]
fn raw_empty_table() {
    let reasons = EnumTable::new();
    let lines = render_raw(&reasons, None, false);
    assert!(lines.is_empty());
}

#[test]
fn raw_verbose_annotates_known_codes() {
    let reasons = table(&[(0x20001, "WIFI_DROP")]);
    let subsys = table(&[(2, "wifi")]);
    let lines = render_raw(&reasons, Some(&subsys), true);
    assert_eq!(lines, vec!["131073 = WIFI_DROP (sub-system: wifi)".to_string()]);
}

#[test]
fn bpftrace_declares_each_code() {
    let reasons = table(&[(5, "DUP_FRAG")]);
    let script = format_bpftrace(&reasons);
    assert!(script.contains("    @drop_reasons[5] = \"DUP_FRAG\";\n"));
    assert!(script.starts_with("#!/usr/bin/bpftrace\n"));
    assert!(script.contains("tracepoint:skb:kfree_skb"));
    assert!(script.ends_with("END\n{\n  clear(@stack);\n}"));
}

#[test]
fn stap_declares_each_code() {
    let reasons = table(&[(5, "DUP_FRAG")]);
    let script = format_stap(&reasons);
    assert!(script.contains("    drop_reasons[5] = \"DUP_FRAG\";\n"));
    assert!(script.starts_with("#! /usr/bin/env stap\n"));
    assert!(script.contains("probe kernel.trace(\"kfree_skb\")"));
    assert!(script.ends_with("delete skb_drop_reason\n}"));
}

#[test]
fn bpftrace_full_text() {
    let reasons = table(&[(5, "DUP_FRAG")]);
    let script = format_bpftrace(&reasons);
    let expected = "#!/usr/bin/bpftrace\n\nBEGIN\n{\n    printf(\"Tracing dropped skbs... Hit Ctrl-C to end.\\n\");\n}\n\ntracepoint:skb:kfree_skb\n{\n    @drop_reasons[5] = \"DUP_FRAG\";\n\n    @stack[ksym(args->location),@drop_reasons[args->reason]] = count();\n    clear(@drop_reasons);\n}\n\ninterval:s:5\n{\n    time(\"%F %T %z (%Z)\\n\");\n    print(@stack);\n    printf(\"\\n\");\n    clear(@stack);\n}\n\nEND\n{\n  clear(@stack);\n}";
    assert_eq!(script, expected);
}

#[test]
fn script_declarations_follow_table_order() {
    let reasons = table(&[(10, "SECOND"), (2, "FIRST")]);
    let script = format_bpftrace(&reasons);
    let first = script.find("@drop_reasons[2] = \"FIRST\";").unwrap();
    let second = script.find("@drop_reasons[10] = \"SECOND\";").unwrap();
    assert!(first < second);
}
