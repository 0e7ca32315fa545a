use gateway::method_sig::{method_signature, MethodAndTypes};
use gateway::type_sig::ArgType;
use gateway::types::ParsingError;

#[test]
fn test_method_and_types_adopt() {
    let parsed = MethodAndTypes::parse("adopt(uint256 petId,PetObj petObj)PetObj(string name)")
        .ok()
        .unwrap();
    assert_eq!(parsed.method.name, "adopt");
    assert_eq!(parsed.method.raw, "adopt(uint256 petId,PetObj petObj)");
    assert_eq!(parsed.method.args.len(), 2);
    assert_eq!(parsed.method.args[0].name, "petId");
    assert_eq!(parsed.method.args[0].type_raw, "uint256");
    assert_eq!(parsed.method.args[0].t, ArgType::Uint);
    assert_eq!(parsed.method.args[1].name, "petObj");
    assert_eq!(
        parsed.method.args[1].t,
        ArgType::Custom("PetObj".to_string())
    );
    assert_eq!(parsed.type_sequences.len(), 1);
    assert_eq!(parsed.type_sequences[0], "PetObj");
    assert_eq!(parsed.types.len(), 1);
    assert_eq!(parsed.types[0].name, "PetObj");
    assert_eq!(parsed.types[0].raw, "PetObj(string name)");
    assert_eq!(parsed.types[0].args.len(), 1);
    assert_eq!(parsed.types[0].args[0].name, "name");
    assert_eq!(parsed.types[0].args[0].t, ArgType::String);

    assert_eq!(method_signature(&parsed), "adopt(uint256,PetObj)");
}

#[test]
fn test_method_with_no_args() {
    let parsed = MethodAndTypes::parse("create()").ok().unwrap();
    assert_eq!(parsed.method.name, "create");
    assert_eq!(parsed.method.args.len(), 0);
    assert_eq!(method_signature(&parsed), "create()");
}

#[test]
fn test_method_lookup_takes_last_declaration() {
    let parsed = MethodAndTypes::parse("f(T t)T(string a)T(uint256 b)").ok().unwrap();
    assert_eq!(parsed.type_sequences, vec!["T".to_string(), "T".to_string()]);
    let def = parsed.lookup_type("T").unwrap();
    assert_eq!(def.args[0].name, "b");
    assert!(parsed.lookup_type("Missing").is_none());
}

#[test]
fn test_method_name_errors() {
    // A name must start with a letter or underscore.
    assert!(matches!(
        MethodAndTypes::parse("1bad()"),
        Err(ParsingError::InvalidMetaTransactionMethodName)
    ));
    // Trailing text after the definitions must itself parse.
    assert!(matches!(
        MethodAndTypes::parse("ok(uint256 x),"),
        Err(ParsingError::InvalidMetaTransactionMethodName)
    ));
    // A bad argument type surfaces as an argument parse error.
    assert!(matches!(
        MethodAndTypes::parse("adopt(x.y petId)"),
        Err(ParsingError::ArgumentParseError)
    ));
    // A digit cannot start an argument, so the list fails as a method
    // grammar violation.
    assert!(matches!(
        MethodAndTypes::parse("adopt(27182818 petId)"),
        Err(ParsingError::InvalidMetaTransactionMethodName)
    ));
}
