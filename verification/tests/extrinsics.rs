//! End-to-end tests of the extrinsic workflow: balance denomination, the
//! tagged storage-deposit encoding, the confirmation gate, the reporter's
//! alignment, and the dry-run / confirm / submit pipeline.

use contract_extrinsics::balance::{denominate, BalanceVariant, TokenMetadata};
use contract_extrinsics::confirm::parse_confirmation;
use contract_extrinsics::deposit::deposit_from_json;
use contract_extrinsics::opts::{make_port_explicit, ExtrinsicOpts, Verbosity, VerbosityFlags};
use contract_extrinsics::pipeline::{
    start, step, PipelineAction, PipelineEvent, PipelineStage, SubmissionOutcome, WorkflowOptions,
};
use contract_extrinsics::report::{
    display_contract_exec_result, display_contract_exec_result_debug, print_dry_running_status,
    print_gas_required_success, ExecutionResult, MAX_KEY_COL_WIDTH,
};
use contract_extrinsics::{ErrorVariant, ModuleErrorData, StorageDeposit};

fn token(decimals: u8) -> TokenMetadata {
    TokenMetadata {
        symbol: String::from("UNIT"),
        decimals,
    }
}

#[test]
fn denominate_shifts_the_decimal_point() {
    assert_eq!(denominate("12.34", 4), Ok(123400));
    assert_eq!(denominate("12.34", 2), Ok(1234));
    assert_eq!(denominate("500", 0), Ok(500));
    assert_eq!(denominate("0.5", 1), Ok(5));
    assert_eq!(denominate("1", 12), Ok(1_000_000_000_000));
}

#[test]
fn denominate_rejects_excess_fractional_digits() {
    assert_eq!(
        denominate("1.234", 2),
        Err(ErrorVariant::InvalidAmount(String::from("1.234")))
    );
}

#[test]
fn denominate_rejects_non_numeric_text() {
    for bad in ["", ".", "5.", ".5", "12a", "1.2.3", "-1", " 1"] {
        assert_eq!(
            denominate(bad, 6),
            Err(ErrorVariant::InvalidAmount(String::from(bad))),
            "expected rejection of {:?}",
            bad
        );
    }
}

#[test]
fn denominate_handles_the_largest_balance() {
    let max = "340282366920938463463374607431768211455";
    assert_eq!(denominate(max, 0), Ok(u128::MAX));
    let over = "340282366920938463463374607431768211456";
    assert_eq!(
        denominate(over, 0),
        Err(ErrorVariant::InvalidAmount(String::from(over)))
    );
}

#[test]
fn denominate_balance_passes_raw_values_through() {
    let raw = BalanceVariant::Raw(77);
    assert_eq!(raw.denominate_balance(&token(12)), Ok(77));
    let denominated = BalanceVariant::Denominated(String::from("2.5"));
    assert_eq!(denominated.denominate_balance(&token(3)), Ok(2500));
}

#[test]
fn storage_deposit_encodes_with_its_tag() {
    assert_eq!(StorageDeposit::Refund(100).to_json(), "{\"Refund\":100}");
    assert_eq!(StorageDeposit::Charge(50).to_json(), "{\"Charge\":50}");
    assert_eq!(StorageDeposit::Charge(0).to_json(), "{\"Charge\":0}");
}

#[test]
fn storage_deposit_round_trips_through_the_tagged_encoding() {
    for d in [
        StorageDeposit::Refund(0),
        StorageDeposit::Refund(123456789),
        StorageDeposit::Charge(50),
        StorageDeposit::Charge(u128::MAX),
    ] {
        let encoded = d.to_json();
        assert_eq!(deposit_from_json(encoded.as_str()), Some(d));
    }
}

#[test]
fn storage_deposit_rejects_malformed_encodings() {
    for bad in [
        "",
        "{\"Refund\":}",
        "{\"Refund\":12",
        "{\"Steal\":12}",
        "{\"Refund\":1x2}",
        "{\"Charge\":340282366920938463463374607431768211456}",
    ] {
        assert_eq!(deposit_from_json(bad), None, "expected rejection of {:?}", bad);
    }
}

#[test]
fn storage_deposit_encoding_matches_the_json_convention() {
    let mut fields = serde_json::Map::new();
    fields.insert(String::from("Refund"), serde_json::Value::from(100u64));
    let conventional = serde_json::to_string(&serde_json::Value::Object(fields)).unwrap();
    assert_eq!(StorageDeposit::Refund(100).to_json(), conventional);
    assert_eq!(
        deposit_from_json(conventional.as_str()),
        Some(StorageDeposit::Refund(100))
    );
}

#[test]
fn confirmation_prompt_names_the_default_and_the_skip_flag() {
    assert_eq!(
        contract_extrinsics::confirm::confirm_prompt_heading(),
        "Confirm transaction details: (skip with --skip-confirm)"
    );
    assert_eq!(
        contract_extrinsics::confirm::confirm_prompt_question(),
        "Submit? (Y/n): "
    );
}

#[test]
fn storage_deposit_orders_refund_before_charge() {
    assert!(StorageDeposit::Refund(u128::MAX) < StorageDeposit::Charge(0));
    assert!(StorageDeposit::Charge(1) < StorageDeposit::Charge(2));
    assert!(StorageDeposit::Refund(1) < StorageDeposit::Refund(2));
}

#[test]
fn confirmation_accepts_empty_and_yes() {
    assert_eq!(parse_confirmation(""), Ok(()));
    assert_eq!(parse_confirmation("y"), Ok(()));
    assert_eq!(parse_confirmation("Y"), Ok(()));
    assert_eq!(parse_confirmation("  y\n"), Ok(()));
    assert_eq!(parse_confirmation("\t\n"), Ok(()));
    assert_eq!(parse_confirmation("\u{00A0}y\u{3000}\n"), Ok(()));
}

#[test]
fn confirmation_declines_on_n() {
    assert_eq!(parse_confirmation("n"), Err(ErrorVariant::Declined));
    assert_eq!(parse_confirmation(" N \n"), Err(ErrorVariant::Declined));
    assert_eq!(parse_confirmation("\u{2028}n\u{0C}"), Err(ErrorVariant::Declined));
    assert_eq!(
        ErrorVariant::Declined.message(),
        "Transaction not submitted"
    );
}

#[test]
fn confirmation_names_unrecognized_input_verbatim() {
    let r = parse_confirmation("purple\n");
    assert_eq!(
        r,
        Err(ErrorVariant::InvalidInput(String::from("purple")))
    );
    match r {
        Err(e) => assert_eq!(e.message(), "Expected either 'y' or 'n', got 'purple'"),
        Ok(()) => panic!("purple must not be accepted"),
    }
}

fn sample_result(debug: &str, error: Option<ModuleErrorData>) -> ExecutionResult {
    ExecutionResult {
        gas_consumed: 100,
        gas_required: 120,
        storage_deposit: StorageDeposit::Charge(50),
        debug_message: debug.as_bytes().to_vec(),
        error,
    }
}

#[test]
fn reporter_labels_only_the_first_debug_line() {
    let result = sample_result("one\ntwo\nthree", None);
    let lines = display_contract_exec_result(&result, MAX_KEY_COL_WIDTH).unwrap();
    assert_eq!(
        lines,
        vec![
            String::from("    Gas Consumed 100"),
            String::from("    Gas Required 120"),
            String::from(" Storage Deposit Charge(50)"),
            String::from("   Debug Message one"),
            String::from("                 two"),
            String::from("                 three"),
        ]
    );
    let blank_label: String = " ".repeat(MAX_KEY_COL_WIDTH);
    assert!(lines[4].starts_with(&blank_label));
    assert!(lines[5].starts_with(&blank_label));
}

#[test]
fn reporter_debug_variant_prints_only_the_message() {
    let result = sample_result("first\r\nsecond", None);
    let lines = display_contract_exec_result_debug(&result, MAX_KEY_COL_WIDTH).unwrap();
    assert_eq!(
        lines,
        vec![
            String::from("   Debug Message first"),
            String::from("                 second"),
        ]
    );
}

#[test]
fn reporter_fails_on_invalid_debug_bytes() {
    let mut result = sample_result("", None);
    result.debug_message = vec![0xff, 0xfe];
    let r = display_contract_exec_result(&result, MAX_KEY_COL_WIDTH);
    assert_eq!(r, Err(ErrorVariant::EncodingError));
    assert_eq!(
        ErrorVariant::EncodingError.message(),
        "Error decoding UTF8 debug message bytes"
    );
}

#[test]
fn reporter_handles_an_empty_debug_message() {
    let result = sample_result("", None);
    let lines = display_contract_exec_result(&result, MAX_KEY_COL_WIDTH).unwrap();
    assert_eq!(lines.len(), 3);
}

#[test]
fn status_lines_align_with_the_report() {
    assert_eq!(
        print_dry_running_status("instantiate"),
        "     Dry-running instantiate (skip with --skip-dry-run)"
    );
    assert_eq!(
        print_gas_required_success(120),
        "        Success! Gas required estimated at 120"
    );
}

#[test]
fn dry_run_failure_halts_the_pipeline() {
    let opts = WorkflowOptions {
        dry_run: false,
        skip_dry_run: false,
        skip_confirm: true,
    };
    let (stage, action) = start(&opts);
    assert_eq!(stage, PipelineStage::AwaitingDryRun);
    assert_eq!(action, PipelineAction::RunDryRun);
    let reverted = sample_result(
        "reverted",
        Some(ModuleErrorData {
            pallet_index: 7,
            error_index: 2,
        }),
    );
    let (stage, action) = step(&opts, stage, PipelineEvent::DryRunCompleted(reverted));
    assert_ne!(action, PipelineAction::Submit);
    assert_eq!(action, PipelineAction::Abort);
    assert_eq!(
        stage,
        PipelineStage::Failed(ErrorVariant::SimulationFailure(ModuleErrorData {
            pallet_index: 7,
            error_index: 2,
        }))
    );
}

#[test]
fn skipping_confirmation_submits_straight_after_the_dry_run() {
    let opts = WorkflowOptions {
        dry_run: false,
        skip_dry_run: false,
        skip_confirm: true,
    };
    let (stage, action) = start(&opts);
    assert_eq!(action, PipelineAction::RunDryRun);
    let simulated = sample_result("", None);
    let (stage, action) = step(&opts, stage, PipelineEvent::DryRunCompleted(simulated));
    assert_eq!(action, PipelineAction::Submit);
    assert_eq!(stage, PipelineStage::AwaitingSubmission);
    let outcome = SubmissionOutcome { events: vec![] };
    let (stage, action) = step(&opts, stage, PipelineEvent::SubmissionIncluded(outcome));
    assert_eq!(stage, PipelineStage::Complete);
    assert_eq!(action, PipelineAction::Finish);
    let submitted = ExecutionResult {
        gas_consumed: 110,
        gas_required: 120,
        storage_deposit: StorageDeposit::Charge(50),
        debug_message: Vec::new(),
        error: None,
    };
    let lines = display_contract_exec_result(&submitted, MAX_KEY_COL_WIDTH).unwrap();
    assert_eq!(lines[0], "    Gas Consumed 110");
    assert_eq!(lines[2], " Storage Deposit Charge(50)");
}

#[test]
fn declined_confirmation_never_reaches_the_submitter() {
    let opts = WorkflowOptions {
        dry_run: false,
        skip_dry_run: false,
        skip_confirm: false,
    };
    let (stage, _) = start(&opts);
    let simulated = sample_result("", None);
    let (stage, action) = step(&opts, stage, PipelineEvent::DryRunCompleted(simulated));
    assert_eq!(action, PipelineAction::PromptConfirmation);
    assert_eq!(stage, PipelineStage::AwaitingConfirmation);
    let (stage, action) = step(
        &opts,
        stage,
        PipelineEvent::ConfirmationEntered(String::from("n")),
    );
    assert_ne!(action, PipelineAction::Submit);
    assert_eq!(action, PipelineAction::Abort);
    match stage {
        PipelineStage::Failed(e) => assert_eq!(e.message(), "Transaction not submitted"),
        other => panic!("expected failure, got {:?}", other),
    }
}

#[test]
fn submission_failures_surface_their_indices() {
    let opts = WorkflowOptions {
        dry_run: false,
        skip_dry_run: true,
        skip_confirm: true,
    };
    let (stage, action) = start(&opts);
    assert_eq!(action, PipelineAction::Submit);
    let module_error = ModuleErrorData {
        pallet_index: 8,
        error_index: 3,
    };
    let (stage, action) = step(&opts, stage, PipelineEvent::SubmissionFailed(module_error));
    assert_eq!(action, PipelineAction::Abort);
    assert_eq!(
        stage,
        PipelineStage::Failed(ErrorVariant::ModuleError(module_error))
    );
    assert_eq!(
        ErrorVariant::ModuleError(module_error).message(),
        "Module error: pallet index 8, error index 3"
    );
}

#[test]
fn forced_dry_run_completes_without_submitting() {
    let opts = WorkflowOptions {
        dry_run: true,
        skip_dry_run: false,
        skip_confirm: false,
    };
    let (stage, action) = start(&opts);
    assert_eq!(action, PipelineAction::RunDryRun);
    let simulated = sample_result("", None);
    let (stage, action) = step(&opts, stage, PipelineEvent::DryRunCompleted(simulated));
    assert_eq!(stage, PipelineStage::Complete);
    assert_eq!(action, PipelineAction::Finish);
}

fn opts_for(url: &str) -> ExtrinsicOpts {
    ExtrinsicOpts {
        manifest_path: None,
        url: url::Url::parse(url).unwrap(),
        suri: String::from("//Alice"),
        password: None,
        verbosity: VerbosityFlags {
            quiet: false,
            verbose: false,
        },
        dry_run: false,
        storage_deposit_limit: None,
        skip_dry_run: false,
        skip_confirm: true,
    }
}

#[test]
fn url_rendering_keeps_an_explicit_port() {
    let opts = opts_for("ws://localhost:9944");
    assert_eq!(opts.url_to_string(), "ws://localhost:9944/");
}

#[test]
fn url_rendering_makes_a_default_port_explicit() {
    let opts = opts_for("wss://rpc.example.com");
    assert_eq!(opts.url_to_string(), "wss://rpc.example.com:443/");
    let opts = opts_for("ws://rpc.example.com");
    assert_eq!(opts.url_to_string(), "ws://rpc.example.com:80/");
}

#[test]
fn port_insertion_lands_at_the_end_of_the_authority() {
    assert_eq!(
        make_port_explicit(String::from("ws://example.com/"), None, Some(9944)),
        "ws://example.com:9944/"
    );
    assert_eq!(
        make_port_explicit(String::from("ws://example.com/rpc/v1"), None, Some(80)),
        "ws://example.com:80/rpc/v1"
    );
    assert_eq!(
        make_port_explicit(String::from("ws://example.com:1/"), Some(1), Some(80)),
        "ws://example.com:1/"
    );
    assert_eq!(
        make_port_explicit(String::from("unix:/tmp/node.sock"), None, None),
        "unix:/tmp/node.sock"
    );
}

#[test]
fn url_rendering_keeps_the_path_intact() {
    let opts = opts_for("ws://rpc.example.com/substrate/node");
    assert_eq!(
        opts.url_to_string(),
        "ws://rpc.example.com:80/substrate/node"
    );
}

#[test]
fn signer_derives_a_key_pair_from_a_development_suri() {
    let opts = opts_for("ws://localhost:9944");
    assert!(opts.signer().is_ok());
}

#[test]
fn signer_rejects_a_malformed_secret() {
    let mut opts = opts_for("ws://localhost:9944");
    opts.suri = String::from("0xzz");
    match opts.signer() {
        Err(e) => assert_eq!(e, ErrorVariant::InvalidSecret),
        Ok(_) => panic!("malformed secret must not derive a key pair"),
    }
}

#[test]
fn verbosity_flags_conflict_is_rejected() {
    let mut opts = opts_for("ws://localhost:9944");
    assert_eq!(opts.verbosity(), Ok(Verbosity::Default));
    opts.verbosity.verbose = true;
    assert_eq!(opts.verbosity(), Ok(Verbosity::Verbose));
    opts.verbosity.quiet = true;
    assert!(opts.verbosity().is_err());
    opts.verbosity.verbose = false;
    assert_eq!(opts.verbosity(), Ok(Verbosity::Quiet));
}

#[test]
fn storage_deposit_limit_is_denominated_once() {
    let mut opts = opts_for("ws://localhost:9944");
    let metadata = TokenMetadata {
        symbol: String::from("UNIT"),
        decimals: 2,
    };
    assert_eq!(opts.storage_deposit_limit(&metadata), Ok(None));
    opts.storage_deposit_limit = Some(BalanceVariant::Denominated(String::from("1.25")));
    assert_eq!(opts.storage_deposit_limit(&metadata), Ok(Some(125)));
    opts.storage_deposit_limit = Some(BalanceVariant::Raw(9));
    assert_eq!(opts.storage_deposit_limit(&metadata), Ok(Some(9)));
    opts.storage_deposit_limit = Some(BalanceVariant::Denominated(String::from("1.255")));
    assert_eq!(
        opts.storage_deposit_limit(&metadata),
        Err(ErrorVariant::InvalidAmount(String::from("1.255")))
    );
}
