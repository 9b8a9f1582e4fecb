use vstd::prelude::*;
use crate::table::EnumTable;

verus! {

pub open spec fn spec_digit(d: nat) -> char {
    if d == 0 {
        '0'
    } else if d == 1 {
        '1'
    } else if d == 2 {
        '2'
    } else if d == 3 {
        '3'
    } else if d == 4 {
        '4'
    } else if d == 5 {
        '5'
    } else if d == 6 {
        '6'
    } else if d == 7 {
        '7'
    } else if d == 8 {
        '8'
    } else {
        '9'
    }
}

/// The decimal digit string of a natural number, no leading zeros.
pub open spec fn spec_nat_string(n: nat) -> Seq<char>
    decreases n,
{
    if n < 10 {
        seq![spec_digit(n)]
    } else {
        spec_nat_string(n / 10) + seq![spec_digit(n % 10)]
    }
}

pub open spec fn spec_u32_string(v: u32) -> Seq<char> {
    spec_nat_string(v as nat)
}

pub open spec fn spec_pow10(k: nat) -> nat
    decreases k,
{
    if k == 0 {
        1
    } else {
        10 * spec_pow10((k - 1) as nat)
    }
}

proof fn lemma_nat_string_len(n: nat, k: nat)
    requires
        1 <= k,
        n < spec_pow10(k),
    ensures
        spec_nat_string(n).len() <= k,
    decreases k,
{
    if n < 10 {
    } else {
        if k == 1 {
            assert(spec_pow10(1) == 10) by {
                reveal_with_fuel(spec_pow10, 2);
            }
            assert(false);
        }
        assert(spec_pow10(k) == 10 * spec_pow10((k - 1) as nat));
        assert(n / 10 < spec_pow10((k - 1) as nat));
        lemma_nat_string_len(n / 10, (k - 1) as nat);
    }
}

fn digit_str(d: u32) -> (r: &'static str)
    requires
        d < 10,
    ensures
        r@ == seq![spec_digit(d as nat)],
{
    if d == 0 {
        proof {
            reveal_strlit("0");
            assert("0"@ =~= seq![spec_digit(0)]);
        }
        "0"
    } else if d == 1 {
        proof {
            reveal_strlit("1");
            assert("1"@ =~= seq![spec_digit(1)]);
        }
        "1"
    } else if d == 2 {
        proof {
            reveal_strlit("2");
            assert("2"@ =~= seq![spec_digit(2)]);
        }
        "2"
    } else if d == 3 {
        proof {
            reveal_strlit("3");
            assert("3"@ =~= seq![spec_digit(3)]);
        }
        "3"
    } else if d == 4 {
        proof {
            reveal_strlit("4");
            assert("4"@ =~= seq![spec_digit(4)]);
        }
        "4"
    } else if d == 5 {
        proof {
            reveal_strlit("5");
            assert("5"@ =~= seq![spec_digit(5)]);
        }
        "5"
    } else if d == 6 {
        proof {
            reveal_strlit("6");
            assert("6"@ =~= seq![spec_digit(6)]);
        }
        "6"
    } else if d == 7 {
        proof {
            reveal_strlit("7");
            assert("7"@ =~= seq![spec_digit(7)]);
        }
        "7"
    } else if d == 8 {
        proof {
            reveal_strlit("8");
            assert("8"@ =~= seq![spec_digit(8)]);
        }
        "8"
    } else {
        proof {
            reveal_strlit("9");
            assert("9"@ =~= seq![spec_digit(9)]);
        }
        "9"
    }
}

/// Renders a 32-bit value in decimal.
pub fn u32_to_string(v: u32) -> (r: String)
    ensures
        r@ == spec_u32_string(v),
    decreases v,
{
    if v < 10 {
        String::from_str(digit_str(v))
    } else {
        proof {
            assert(v / 10 < v);
        }
        let mut s = u32_to_string(v / 10);
        s.append(digit_str(v % 10));
        proof {
            assert(s@ =~= spec_u32_string(v));
        }
        s
    }
}

/// The number of decimal digits of a 32-bit value.
pub fn num_digits(v: u32) -> (n: usize)
    ensures
        n == spec_u32_string(v).len(),
        1 <= n <= 10,
    decreases v,
{
    if v < 10 {
        1
    } else {
        proof {
            assert(v / 10 < v);
        }
        let rest = num_digits(v / 10);
        proof {
            assert(spec_pow10(9) == 1000000000) by {
                reveal_with_fuel(spec_pow10, 10);
            }
            assert(((v / 10) as nat) < 1000000000);
            lemma_nat_string_len((v / 10) as nat, 9);
        }
        rest + 1
    }
}

pub open spec fn opt_table_view(subsys: Option<&EnumTable>) -> Option<Map<u32, Seq<char>>> {
    match subsys {
        Some(t) => Some(t@),
        None => None,
    }
}

pub open spec fn opt_table_wf(subsys: Option<&EnumTable>) -> bool {
    match subsys {
        Some(t) => t.wf(),
        None => true,
    }
}

/// The subsystem annotation rule: when annotation is requested, a subsystem
/// table exists and it knows the code's upper 16 bits, the subsystem's name is
/// appended; in every other case the base string stands alone.
pub open spec fn spec_annotated(
    base: Seq<char>,
    code: u32,
    subsys: Option<Map<u32, Seq<char>>>,
    annotate: bool,
) -> Seq<char> {
    match subsys {
        Some(m) => if annotate && m.contains_key(code >> 16) {
            base + " (sub-system: "@ + m[code >> 16] + ")"@
        } else {
            base
        },
        None => base,
    }
}

/// What resolving one code renders: the table's name for it, or the generic
/// unknown-reason label; an unknown code is always annotated as if verbose,
/// a known one only on request.
pub open spec fn spec_format_reason(
    code: u32,
    reasons: Map<u32, Seq<char>>,
    subsys: Option<Map<u32, Seq<char>>>,
    verbose: bool,
) -> Seq<char> {
    if reasons.contains_key(code) {
        spec_annotated(reasons[code], code, subsys, verbose)
    } else {
        spec_annotated("Unknown reason "@ + spec_u32_string(code), code, subsys, true)
    }
}

/// An unresolvable code is annotated whatever the verbosity flag says; a
/// resolvable one keeps its bare name unless verbose is set.
pub proof fn lemma_annotation_rule(
    code: u32,
    reasons: Map<u32, Seq<char>>,
    subsys: Map<u32, Seq<char>>,
    verbose: bool,
)
    ensures
        !reasons.contains_key(code) ==> spec_format_reason(code, reasons, Some(subsys), verbose)
            == spec_format_reason(code, reasons, Some(subsys), true),
        reasons.contains_key(code) && !verbose ==> spec_format_reason(
            code,
            reasons,
            Some(subsys),
            verbose,
        ) == reasons[code],
        reasons.contains_key(code) && verbose && subsys.contains_key(code >> 16)
            ==> spec_format_reason(code, reasons, Some(subsys), verbose) == reasons[code]
            + " (sub-system: "@ + subsys[code >> 16] + ")"@,
{
}

fn with_subsystem(base: String, code: u32, subsys: Option<&EnumTable>, annotate: bool) -> (r:
    String)
    requires
        opt_table_wf(subsys),
    ensures
        r@ == spec_annotated(base@, code, opt_table_view(subsys), annotate),
{
    let mut s = base;
    if annotate {
        if let Some(t) = subsys {
            match t.get(code >> 16) {
                Some(name) => {
                    s.append(" (sub-system: ");
                    s.append(name.as_str());
                    s.append(")");
                },
                None => {},
            }
        }
    }
    s
}

/// Renders one drop-reason code for display: its name if the table knows it,
/// the generic unknown-reason label otherwise, with the subsystem annotation
/// applied under the rule of `spec_format_reason`.
pub fn format_reason(val: u32, reasons: &EnumTable, subsys: Option<&EnumTable>, verbose: bool) -> (
    r: String)
    requires
        reasons.wf(),
        opt_table_wf(subsys),
    ensures
        r@ == spec_format_reason(val, reasons@, opt_table_view(subsys), verbose),
{
    match reasons.get(val) {
        Some(name) => {
            let base = String::from_str(name.as_str());
            with_subsystem(base, val, subsys, verbose)
        },
        None => {
            let mut base = String::from_str("Unknown reason ");
            let digits = u32_to_string(val);
            base.append(digits.as_str());
            with_subsystem(base, val, subsys, true)
        },
    }
}

/// Pads the digit string on the left with zeros up to the width.
pub open spec fn spec_zero_pad(s: Seq<char>, width: nat) -> Seq<char> {
    if s.len() >= width {
        s
    } else {
        Seq::new((width - s.len()) as nat, |i: int| '0') + s
    }
}

/// The largest code in the table: the last entry, as entries are sorted.
pub open spec fn spec_max_code(t: EnumTable) -> u32 {
    if t.entries@.len() == 0 {
        0
    } else {
        t.entries@.last().0
    }
}

/// One line of the raw listing: the padded code, `" = "`, and the rendered
/// name.
pub open spec fn spec_raw_line(
    code: u32,
    reasons: Map<u32, Seq<char>>,
    subsys: Option<Map<u32, Seq<char>>>,
    verbose: bool,
    width: nat,
) -> Seq<char> {
    spec_zero_pad(spec_u32_string(code), width) + " = "@ + spec_format_reason(
        code,
        reasons,
        subsys,
        verbose,
    )
}

/// Renders the whole table, one line per entry. The entries are sorted by
/// strictly ascending code, so the lines come out in that order and every
/// code appears exactly once. The padding width is the digit count of the
/// largest code.
pub fn render_raw(reasons: &EnumTable, subsys: Option<&EnumTable>, verbose: bool) -> (lines: Vec<
    String>)
    requires
        reasons.wf(),
        opt_table_wf(subsys),
    ensures
        lines@.len() == reasons.entries@.len(),
        forall|i: int|
            0 <= i < lines@.len() ==> (#[trigger] lines@[i])@ == spec_raw_line(
                reasons.entries@[i].0,
                reasons@,
                opt_table_view(subsys),
                verbose,
                spec_u32_string(spec_max_code(*reasons)).len(),
            ),
{
    let n = reasons.entries.len();
    let max_code: u32 = if n == 0 {
        0
    } else {
        reasons.entries[n - 1].0
    };
    let width = num_digits(max_code);
    let ghost w = spec_u32_string(spec_max_code(*reasons)).len();
    let mut lines: Vec<String> = Vec::new();
    let mut i: usize = 0;
    while i < n
        invariant
            reasons.wf(),
            opt_table_wf(subsys),
            n == reasons.entries@.len(),
            0 <= i <= n,
            width == w,
            lines@.len() == i,
            forall|j: int|
                0 <= j < i ==> (#[trigger] lines@[j])@ == spec_raw_line(
                    reasons.entries@[j].0,
                    reasons@,
                    opt_table_view(subsys),
                    verbose,
                    w,
                ),
        decreases n - i,
    {
        let code = reasons.entries[i].0;
        let digits = u32_to_string(code);
        let dn = num_digits(code);
        let pad: usize = if dn < width {
            width - dn
        } else {
            0
        };
        let mut line = String::new();
        let mut p: usize = 0;
        while p < pad
            invariant
                0 <= p <= pad,
                line@ =~= Seq::new(p as nat, |x: int| '0'),
            decreases pad - p,
        {
            line.append("0");
            proof {
                reveal_strlit("0");
                assert(line@ =~= Seq::new((p + 1) as nat, |x: int| '0'));
            }
            p += 1;
        }
        line.append(digits.as_str());
        proof {
            assert(line@ =~= spec_zero_pad(spec_u32_string(code), w));
        }
        line.append(" = ");
        let rendered = format_reason(code, reasons, subsys, verbose);
        line.append(rendered.as_str());
        proof {
            assert(line@ =~= spec_raw_line(
                code,
                reasons@,
                opt_table_view(subsys),
                verbose,
                w,
            ));
        }
        lines.push(line);
        i += 1;
    }
    lines
}

/// The fixed opening of the bpftrace monitoring script, up to where the
/// declaration block is injected.
pub open spec fn spec_bpftrace_header() -> Seq<char> {
    "#!/usr/bin/bpftrace\n\nBEGIN\n{\n    printf(\"Tracing dropped skbs... Hit Ctrl-C to end.\\n\");\n}\n\ntracepoint:skb:kfree_skb\n{\n"@
}

/// The fixed remainder of the bpftrace monitoring script.
pub open spec fn spec_bpftrace_footer() -> Seq<char> {
    "\n    @stack[ksym(args->location),@drop_reasons[args->reason]] = count();\n    clear(@drop_reasons);\n}\n\ninterval:s:5\n{\n    time(\"%F %T %z (%Z)\\n\");\n    print(@stack);\n    printf(\"\\n\");\n    clear(@stack);\n}\n\nEND\n{\n  clear(@stack);\n}"@
}

/// One bpftrace declaration line associating a code with its quoted name.
pub open spec fn spec_bpftrace_decl(code: u32, name: Seq<char>) -> Seq<char> {
    "    @drop_reasons["@ + spec_u32_string(code) + "] = \""@ + name + "\";\n"@
}

/// The bpftrace declaration block: one line per entry, in entry order.
pub open spec fn spec_bpftrace_decls(entries: Seq<(u32, String)>) -> Seq<char>
    decreases entries.len(),
{
    if entries.len() == 0 {
        Seq::empty()
    } else {
        spec_bpftrace_decls(entries.drop_last()) + spec_bpftrace_decl(
            entries.last().0,
            entries.last().1@,
        )
    }
}

/// Constructs the bpftrace monitoring script: the fixed template with one
/// declaration line per table entry injected, in entry order.
pub fn format_bpftrace(reasons: &EnumTable) -> (r: String)
    ensures
        r@ == spec_bpftrace_header() + spec_bpftrace_decls(reasons.entries@)
            + spec_bpftrace_footer(),
{
    let mut s = String::from_str(
        "#!/usr/bin/bpftrace\n\nBEGIN\n{\n    printf(\"Tracing dropped skbs... Hit Ctrl-C to end.\\n\");\n}\n\ntracepoint:skb:kfree_skb\n{\n",
    );
    let n = reasons.entries.len();
    let mut i: usize = 0;
    proof {
        assert(reasons.entries@.subrange(0, 0) =~= Seq::<(u32, String)>::empty());
        assert(s@ =~= spec_bpftrace_header() + spec_bpftrace_decls(
            reasons.entries@.subrange(0, 0),
        ));
    }
    while i < n
        invariant
            n == reasons.entries@.len(),
            0 <= i <= n,
            s@ == spec_bpftrace_header() + spec_bpftrace_decls(
                reasons.entries@.subrange(0, i as int),
            ),
        decreases n - i,
    {
        s.append("    @drop_reasons[");
        let digits = u32_to_string(reasons.entries[i].0);
        s.append(digits.as_str());
        s.append("] = \"");
        s.append(reasons.entries[i].1.as_str());
        s.append("\";\n");
        proof {
            assert(reasons.entries@.subrange(0, i + 1).drop_last() =~= reasons.entries@.subrange(
                0,
                i as int,
            ));
            assert(reasons.entries@.subrange(0, i + 1).last() == reasons.entries@[i as int]);
            assert(s@ =~= spec_bpftrace_header() + spec_bpftrace_decls(
                reasons.entries@.subrange(0, i + 1),
            ));
        }
        i += 1;
    }
    s.append(
        "\n    @stack[ksym(args->location),@drop_reasons[args->reason]] = count();\n    clear(@drop_reasons);\n}\n\ninterval:s:5\n{\n    time(\"%F %T %z (%Z)\\n\");\n    print(@stack);\n    printf(\"\\n\");\n    clear(@stack);\n}\n\nEND\n{\n  clear(@stack);\n}",
    );
    proof {
        assert(reasons.entries@.subrange(0, n as int) =~= reasons.entries@);
    }
    s
}

/// The fixed opening of the SystemTap monitoring script, up to where the
/// declaration block is injected.
pub open spec fn spec_stap_header() -> Seq<char> {
    "#! /usr/bin/env stap\n\nglobal skb_drop_reason\nglobal drop_reasons\n\nprobe kernel.trace(\"kfree_skb\") {\n    skb_drop_reason[$location, $reason] <<< 1;\n}\n\nprobe begin {\n    printf(\"Tracing dropped skbs... Hit Ctrl-C to end.\\n\");\n}\n\n# Report every 5 seconds\nprobe timer.sec(5)\n{\n    printf(\"\\n%s\", tz_ctime(gettimeofday_s()))\n"@
}

/// The fixed remainder of the SystemTap monitoring script.
pub open spec fn spec_stap_footer() -> Seq<char> {
    "\n    printf(\"\\n%-35s%-35s%10s\\n\",\"Drop\",\"Location\",\"Count\");\n    foreach([location, reason] in skb_drop_reason) {\n        printf(\"%-35s%-35s%10d\\n\",symname(location),drop_reasons[reason],@count(skb_drop_reason[location, reason]))\n    }\n    delete skb_drop_reason\n}"@
}

/// One SystemTap declaration line associating a code with its quoted name.
pub open spec fn spec_stap_decl(code: u32, name: Seq<char>) -> Seq<char> {
    "    drop_reasons["@ + spec_u32_string(code) + "] = \""@ + name + "\";\n"@
}

/// The SystemTap declaration block: one line per entry, in entry order.
pub open spec fn spec_stap_decls(entries: Seq<(u32, String)>) -> Seq<char>
    decreases entries.len(),
{
    if entries.len() == 0 {
        Seq::empty()
    } else {
        spec_stap_decls(entries.drop_last()) + spec_stap_decl(
            entries.last().0,
            entries.last().1@,
        )
    }
}

/// Constructs the SystemTap monitoring script: the fixed template with one
/// declaration line per table entry injected, in entry order.
pub fn format_stap(reasons: &EnumTable) -> (r: String)
    ensures
        r@ == spec_stap_header() + spec_stap_decls(reasons.entries@) + spec_stap_footer(),
{
    let mut s = String::from_str(
        "#! /usr/bin/env stap\n\nglobal skb_drop_reason\nglobal drop_reasons\n\nprobe kernel.trace(\"kfree_skb\") {\n    skb_drop_reason[$location, $reason] <<< 1;\n}\n\nprobe begin {\n    printf(\"Tracing dropped skbs... Hit Ctrl-C to end.\\n\");\n}\n\n# Report every 5 seconds\nprobe timer.sec(5)\n{\n    printf(\"\\n%s\", tz_ctime(gettimeofday_s()))\n",
    );
    let n = reasons.entries.len();
    let mut i: usize = 0;
    proof {
        assert(reasons.entries@.subrange(0, 0) =~= Seq::<(u32, String)>::empty());
        assert(s@ =~= spec_stap_header() + spec_stap_decls(reasons.entries@.subrange(0, 0)));
    }
    while i < n
        invariant
            n == reasons.entries@.len(),
            0 <= i <= n,
            s@ == spec_stap_header() + spec_stap_decls(reasons.entries@.subrange(0, i as int)),
        decreases n - i,
    {
        s.append("    drop_reasons[");
        let digits = u32_to_string(reasons.entries[i].0);
        s.append(digits.as_str());
        s.append("] = \"");
        s.append(reasons.entries[i].1.as_str());
        s.append("\";\n");
        proof {
            assert(reasons.entries@.subrange(0, i + 1).drop_last() =~= reasons.entries@.subrange(
                0,
                i as int,
            ));
            assert(reasons.entries@.subrange(0, i + 1).last() == reasons.entries@[i as int]);
            assert(s@ =~= spec_stap_header() + spec_stap_decls(
                reasons.entries@.subrange(0, i + 1),
            ));
        }
        i += 1;
    }
    s.append(
        "\n    printf(\"\\n%-35s%-35s%10s\\n\",\"Drop\",\"Location\",\"Count\");\n    foreach([location, reason] in skb_drop_reason) {\n        printf(\"%-35s%-35s%10d\\n\",symname(location),drop_reasons[reason],@count(skb_drop_reason[location, reason]))\n    }\n    delete skb_drop_reason\n}",
    );
    proof {
        assert(reasons.entries@.subrange(0, n as int) =~= reasons.entries@);
    }
    s
}

} // verus!
