use hecklib::{find_and_assign_captures, CaptureError, CaptureInfo, CaptureType, GrammarToken, Pat};

fn fresh_cap(inner: Pat) -> Pat {
    Pat::Cap(CaptureInfo::Unnamed, Box::new(inner))
}

#[test]
fn capture_in_sequence_is_single() {
    let pat = Pat::Sequence(vec![
        fresh_cap(Pat::Rule("a".to_string())),
        Pat::Token(GrammarToken::Str("x".to_string())),
    ]);
    let rule = find_and_assign_captures(pat).unwrap();
    assert_eq!(rule.captures, vec![CaptureType::Single]);
    match &rule.pat {
        Pat::Sequence(ps) => match &ps[0] {
            Pat::Cap(CaptureInfo::Assigned(0), _) => {}
            other => panic!("slot not assigned: {:?}", other),
        },
        other => panic!("shape changed: {:?}", other),
    }
}

#[test]
fn capture_under_zeroplus_is_multiple() {
    let pat = Pat::ZeroPlus(Box::new(fresh_cap(Pat::Rule("a".to_string()))));
    let rule = find_and_assign_captures(pat).unwrap();
    assert_eq!(rule.captures, vec![CaptureType::Multiple]);
}

#[test]
fn capture_under_nested_sequence_in_zeroplus_is_multiple() {
    let pat = Pat::ZeroPlus(Box::new(Pat::Sequence(vec![
        Pat::Token(GrammarToken::Str("x".to_string())),
        fresh_cap(Pat::Rule("a".to_string())),
    ])));
    let rule = find_and_assign_captures(pat).unwrap();
    assert_eq!(rule.captures, vec![CaptureType::Multiple]);
}

#[test]
fn capture_of_single_under_opt_is_optional() {
    let pat = Pat::Opt(Box::new(fresh_cap(Pat::Rule("a".to_string()))));
    let rule = find_and_assign_captures(pat).unwrap();
    assert_eq!(rule.captures, vec![CaptureType::Optional]);
}

#[test]
fn capture_of_compound_opt_is_multiple() {
    // A capture whose payload is an optional compound pattern repeats.
    let pat = fresh_cap(Pat::Opt(Box::new(Pat::Sequence(vec![
        Pat::Rule("a".to_string()),
        Pat::Rule("b".to_string()),
    ]))));
    let rule = find_and_assign_captures(pat).unwrap();
    assert_eq!(rule.captures, vec![CaptureType::Multiple]);
}

#[test]
fn alternation_reconciliation() {
    // rule: $A | $B $C  -- the alternatives pair their fresh captures in
    // order: slot 0 is produced by both alternatives, slot 1 only by the
    // second, so it loses its unconditional guarantee.
    let pat = Pat::AnyOf(vec![
        fresh_cap(Pat::Rule("A".to_string())),
        Pat::Sequence(vec![
            fresh_cap(Pat::Rule("B".to_string())),
            fresh_cap(Pat::Rule("C".to_string())),
        ]),
    ]);
    let rule = find_and_assign_captures(pat).unwrap();
    assert_eq!(rule.captures.len(), 2);
    assert_eq!(rule.captures[0], CaptureType::Single);
    assert_eq!(rule.captures[1], CaptureType::Optional);
}

#[test]
fn alternation_missing_slot_downgraded() {
    // rule: $B $C | $A -- the slot only the first alternative fills is
    // downgraded from Single to Optional.
    let pat = Pat::AnyOf(vec![
        Pat::Sequence(vec![
            fresh_cap(Pat::Rule("B".to_string())),
            fresh_cap(Pat::Rule("C".to_string())),
        ]),
        fresh_cap(Pat::Rule("A".to_string())),
    ]);
    let rule = find_and_assign_captures(pat).unwrap();
    assert_eq!(rule.captures.len(), 2);
    assert_eq!(rule.captures[0], CaptureType::Single);
    assert_eq!(rule.captures[1], CaptureType::Optional);
}

#[test]
fn shared_group_used_in_both_alternatives_stays_single() {
    let pat = Pat::AnyOf(vec![
        Pat::Cap(CaptureInfo::Shared(0), Box::new(Pat::Rule("a".to_string()))),
        Pat::Cap(CaptureInfo::Shared(0), Box::new(Pat::Rule("b".to_string()))),
    ]);
    let rule = find_and_assign_captures(pat).unwrap();
    assert_eq!(rule.captures, vec![CaptureType::Single]);
}

#[test]
fn shared_group_reused_in_sequence_is_multiple() {
    let pat = Pat::Sequence(vec![
        Pat::Cap(CaptureInfo::Shared(0), Box::new(Pat::Rule("a".to_string()))),
        Pat::Cap(CaptureInfo::Shared(0), Box::new(Pat::Rule("b".to_string()))),
    ]);
    let rule = find_and_assign_captures(pat).unwrap();
    assert_eq!(rule.captures, vec![CaptureType::Multiple]);
}

#[test]
fn shared_group_out_of_order_rejected() {
    let pat = Pat::Cap(CaptureInfo::Shared(1), Box::new(Pat::Rule("a".to_string())));
    assert_eq!(
        find_and_assign_captures(pat).unwrap_err(),
        CaptureError::SharedOutOfOrder
    );
}

#[test]
fn nested_capture_rejected() {
    let pat = fresh_cap(fresh_cap(Pat::Rule("a".to_string())));
    assert_eq!(
        find_and_assign_captures(pat).unwrap_err(),
        CaptureError::NestedCapture
    );
}

#[test]
fn capture_of_break_rejected() {
    let pat = fresh_cap(Pat::BreakOnToken(GrammarToken::Str("]".to_string())));
    assert_eq!(
        find_and_assign_captures(pat).unwrap_err(),
        CaptureError::CaptureOfBreak
    );
}

#[test]
fn empty_alternation_rejected() {
    let pat = Pat::AnyOf(vec![]);
    assert_eq!(
        find_and_assign_captures(pat).unwrap_err(),
        CaptureError::EmptyAlternation
    );
}

#[test]
fn assignment_is_not_idempotent() {
    // Running capture assignment twice over an already-assigned pattern is
    // rejected: it is defined only for not-yet-assigned trees.
    let pat = Pat::Sequence(vec![fresh_cap(Pat::Rule("a".to_string()))]);
    let rule = find_and_assign_captures(pat).unwrap();
    assert_eq!(
        find_and_assign_captures(rule.pat).unwrap_err(),
        CaptureError::AlreadyAssigned
    );
}
