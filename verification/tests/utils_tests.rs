use chum::utils::{
    convert_numeric_distribution, convert_operation_distribution, expand_distribution,
    parse_human, ChumError, OutputFormat,
};
use chum::worker::Operation;

#[test]
fn test_parse_human() -> Result<(), ChumError> {
    assert_eq!(parse_human("4k")?, 4096);
    assert_eq!(parse_human("1M")?, 1048576);
    assert_eq!(parse_human("1g")?, 1073741824);
    assert_eq!(parse_human("1T")?, 1099511627776);

    assert_eq!(
        parse_human("1Y"),
        Err(ChumError::new(
            "provided value \
            must be a positive number with a unit suffix"
        ))
    );
    assert_eq!(
        parse_human("1024b"),
        Err(ChumError::new(
            "provided value \
            must be a positive number with a unit suffix"
        ))
    );
    assert_eq!(
        parse_human("1234"),
        Err(ChumError::new(
            "provided value \
            must be a positive number with a unit suffix"
        ))
    );

    assert_eq!(
        parse_human("-1G"),
        Err(ChumError::new(
            "provided value \
            must be a positive number with a unit suffix"
        ))
    );
    assert_eq!(
        parse_human("T1"),
        Err(ChumError::new(
            "provided value \
            must be a positive number with a unit suffix"
        ))
    );
    Ok(())
}

#[test]
fn test_parse_human_zero_and_overflow() {
    assert_eq!(parse_human("0"), Ok(0));
    assert_eq!(parse_human("4"), Err(ChumError::new("provided value must be a positive number with a unit suffix")));
    assert_eq!(parse_human("4b"), Err(ChumError::new("provided value must be a positive number with a unit suffix")));
    assert_eq!(parse_human("-1k"), Err(ChumError::new("provided value must be a positive number with a unit suffix")));
    // values past 64 bits are a clean error, whether the digits overflow
    // on their own or only after the unit multiplier
    assert_eq!(
        parse_human("10000000000T"),
        Err(ChumError::new("number too large to fit in target type"))
    );
    assert_eq!(
        parse_human("99999999999999999999999999k"),
        Err(ChumError::new("number too large to fit in target type"))
    );
}

#[test]
fn test_expand_distribution() -> Result<(), ChumError> {
    assert_eq!(expand_distribution("1,2,3")?, vec!["1", "2", "3"]);
    assert_eq!(
        expand_distribution("1:2,2:2,3:1")?,
        vec!["1", "1", "2", "2", "3"]
    );
    assert_eq!(expand_distribution("hello:1")?, vec!["hello"]);

    assert_eq!(
        expand_distribution("1:2:3"),
        Err(ChumError::new("too many multiples in token '1:2:3'"))
    );
    assert_eq!(
        expand_distribution("1:cat"),
        Err(ChumError::new("failed to parse 'cat' as a number"))
    );

    Ok(())
}

#[test]
fn test_convert_numeric_distribution() -> Result<(), ChumError> {
    assert_eq!(
        convert_numeric_distribution(expand_distribution("1k,2k,3k")?)?,
        vec![1024, 2048, 3072]
    );

    assert_eq!(
        convert_numeric_distribution(expand_distribution("1,2,3")?),
        Err(ChumError::new(
            "provided value must be a positive number \
                with a unit suffix"
        ))
    );

    assert_eq!(
        convert_numeric_distribution(expand_distribution("a,b,c")?),
        Err(ChumError::new(
            "provided value must be a positive number \
                with a unit suffix"
        ))
    );

    Ok(())
}

#[test]
fn test_weighted_operation_expansion() {
    // `r:3,w:1` expands to a four-element list with three reads and a write
    let toks = expand_distribution("r:3,w:1").unwrap();
    assert_eq!(toks, vec!["r", "r", "r", "w"]);
    let ops = convert_operation_distribution(toks).unwrap();
    assert_eq!(ops.len(), 4);
    let reads = ops.iter().filter(|o| **o == Operation::Read).count();
    let writes = ops.iter().filter(|o| **o == Operation::Write).count();
    assert_eq!(reads, 3);
    assert_eq!(writes, 1);
}

#[test]
fn test_expand_distribution_weight_edge_cases() {
    // a zero weight contributes nothing; a signed weight parses the way
    // `str::parse::<u32>` does
    assert_eq!(expand_distribution("a:0,b").unwrap(), vec!["b"]);
    assert_eq!(expand_distribution("a:+2").unwrap(), vec!["a", "a"]);
    assert_eq!(
        expand_distribution("a:-2"),
        Err(ChumError::new("failed to parse '-2' as a number"))
    );
    assert_eq!(
        expand_distribution("a:"),
        Err(ChumError::new("failed to parse '' as a number"))
    );
    assert_eq!(expand_distribution("").unwrap(), vec![""]);
}

#[test]
fn test_convert_operation_distribution_rejects_bad_tokens() {
    assert_eq!(
        convert_operation_distribution(vec!["r".to_string(), "x".to_string()]),
        Err(ChumError::new("invalid operation requested"))
    );
    // the synthetic error kind is not a selectable workload operation
    assert_eq!(
        convert_operation_distribution(vec!["e".to_string()]),
        Err(ChumError::new("invalid operation requested"))
    );
    assert_eq!(
        convert_operation_distribution(vec![
            "r".to_string(),
            "w".to_string(),
            "d".to_string()
        ]),
        Ok(vec![Operation::Read, Operation::Write, Operation::Delete])
    );
}

#[test]
fn test_operation_from_str() {
    assert_eq!(Operation::from_str("r"), Ok(Operation::Read));
    assert_eq!(Operation::from_str("w"), Ok(Operation::Write));
    assert_eq!(Operation::from_str("d"), Ok(Operation::Delete));
    assert_eq!(Operation::from_str("e"), Ok(Operation::Error));
    assert_eq!(
        Operation::from_str("q"),
        Err(ChumError::new("invalid operation requested"))
    );
    assert_eq!(Operation::Read.label(), "read");
    assert_eq!(Operation::Error.label(), "error");
}

#[test]
fn test_output_format_from_str() {
    assert_eq!(OutputFormat::from_str("h"), Ok(OutputFormat::Human));
    assert_eq!(OutputFormat::from_str("v"), Ok(OutputFormat::HumanVerbose));
    assert_eq!(OutputFormat::from_str("t"), Ok(OutputFormat::Tabular));
    assert!(OutputFormat::from_str("x").is_err());
    assert!(OutputFormat::from_str("").is_err());
}

#[test]
fn test_error_message_accessor() {
    let e = ChumError::new("something broke");
    assert_eq!(e.msg(), "something broke");
}
