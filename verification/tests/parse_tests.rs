use branch_predictor::parse::parse_trace_line;
use branch_predictor::BranchResult;
use branch_predictor::Predictor;
use branch_predictor::Predictors;
use branch_predictor::StaticPredictor;

#[test]
fn trace_line_well_formed() {
    assert_eq!(
        parse_trace_line("0x1000 1"),
        Some((0x1000, BranchResult::Taken))
    );
    assert_eq!(
        parse_trace_line("0x1000 0\n"),
        Some((4096, BranchResult::NotTaken))
    );
    // Trailing text after the outcome digit is ignored.
    assert_eq!(
        parse_trace_line("0xaBcDeF 1 extra words"),
        Some((0xabcdef, BranchResult::Taken))
    );
    assert_eq!(
        parse_trace_line("0xFFFFFFFF 1"),
        Some((u32::MAX, BranchResult::Taken))
    );
    assert_eq!(parse_trace_line("0x0 0"), Some((0, BranchResult::NotTaken)));
}

#[test]
fn trace_line_malformed() {
    // No 0x prefix.
    assert_eq!(parse_trace_line("1000 1"), None);
    // No hex digits.
    assert_eq!(parse_trace_line("0x 1"), None);
    // A non-hex character inside the pc field.
    assert_eq!(parse_trace_line("0x10z0 1"), None);
    // No space and outcome field.
    assert_eq!(parse_trace_line("0x1000"), None);
    // Outcome not 0 or 1.
    assert_eq!(parse_trace_line("0x1000 2"), None);
    // Missing outcome byte after the space.
    assert_eq!(parse_trace_line("0x1000 "), None);
    // A pc that does not fit 32 bits.
    assert_eq!(parse_trace_line("0x100000000 1"), None);
    assert_eq!(parse_trace_line(""), None);
}

#[test]
fn predictor_strings_well_formed() {
    assert_eq!(Predictors::from_str("static"), Ok(Predictors::Static));
    // Anything after the scheme name is acceptable for static.
    assert_eq!(Predictors::from_str("staticxyz"), Ok(Predictors::Static));
    assert_eq!(Predictors::from_str("gshare:4"), Ok(Predictors::Gshare(4)));
    // The separating colon is optional; empty segments are skipped.
    assert_eq!(Predictors::from_str("gshare4"), Ok(Predictors::Gshare(4)));
    assert_eq!(Predictors::from_str("gshare::4:"), Ok(Predictors::Gshare(4)));
    // Extra numbers beyond the needed count are ignored.
    assert_eq!(Predictors::from_str("gshare:4:7"), Ok(Predictors::Gshare(4)));
    assert_eq!(
        Predictors::from_str("tournament:9:10:10"),
        Ok(Predictors::Tournament(9, 10, 10))
    );
    assert_eq!(
        Predictors::from_str("custom:59:128:127"),
        Ok(Predictors::Custom(59, 128, 127))
    );
    assert_eq!(
        Predictors::from_str("custom:1:2:3:4"),
        Ok(Predictors::Custom(1, 2, 3))
    );
}

#[test]
fn predictor_strings_malformed() {
    assert_eq!(
        Predictors::from_str("gshare"),
        Err(String::from(
            "gshare:<history bits> argument required for gshare"
        ))
    );
    assert_eq!(
        Predictors::from_str("gshare:abc"),
        Err(String::from(
            "gshare:<history bits> argument required for gshare"
        ))
    );
    // A value that does not fit u32 is a configuration error.
    assert_eq!(
        Predictors::from_str("gshare:99999999999"),
        Err(String::from(
            "gshare:<history bits> argument required for gshare"
        ))
    );
    assert_eq!(
        Predictors::from_str("tournament:1:2"),
        Err(String::from(
            "tournament:<ghistory>:<lhistory>:<index> bits required for tournament"
        ))
    );
    assert_eq!(
        Predictors::from_str("custom:1:2"),
        Err(String::from(
            "custom:<history_size>:<num_perceptrons>:<theta> required for custom predictor"
        ))
    );
    assert_eq!(
        Predictors::from_str("banana"),
        Err(String::from("invalid predictor type"))
    );
    assert_eq!(
        Predictors::from_str(""),
        Err(String::from("invalid predictor type"))
    );
}

#[test]
fn predictor_string_repeated_prefix_is_trimmed() {
    // Every leading repetition of the scheme name is stripped before the
    // numbers are read.
    assert_eq!(
        Predictors::from_str("gsharegshare:5"),
        Ok(Predictors::Gshare(5))
    );
}

#[test]
fn static_end_to_end_scenario() {
    let lines = ["0x1000 1", "0x1000 1", "0x1000 0", "0x1000 1"];
    let mut predictor = StaticPredictor {};
    let mut branches: u32 = 0;
    let mut mispredictions: u32 = 0;
    for line in lines.iter() {
        let (pc, outcome) = parse_trace_line(line).expect("well-formed trace line");
        branches += 1;
        if predictor.make_prediction(pc) != outcome {
            mispredictions += 1;
        }
        predictor.train_predictor(pc, outcome);
    }
    assert_eq!(branches, 4);
    assert_eq!(mispredictions, 1);
    let rate = format!(
        "{:.2}%",
        100.0 * (mispredictions as f64 / branches as f64)
    );
    assert_eq!(rate, "25.00%");
}
