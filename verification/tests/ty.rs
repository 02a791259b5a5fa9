use dpc::common::ty::{
    create_nbyte_array, create_nint_array, create_nlong_array, write_string, DataType,
    NBTArrayType, NBTArrayTypeContents, NBTType, NBTTypeContents, ScoreType, ScoreTypeContents,
};

#[test]
fn score_casts() {
    assert!(ScoreType::Bool.is_trivially_castable(&ScoreType::Score));
    assert!(ScoreType::UScore.is_trivially_castable(&ScoreType::Score));
    assert!(!ScoreType::Score.is_trivially_castable(&ScoreType::Bool));
    assert!(!ScoreType::Bool.is_trivially_castable(&ScoreType::UScore));
}

#[test]
fn every_type_casts_to_itself() {
    let types = vec![
        DataType::Score(ScoreType::UScore),
        DataType::NBT(NBTType::Long),
        DataType::NBT(NBTType::List(Box::new(NBTType::Short))),
        DataType::NBT(NBTType::Compound(vec![("a".to_string(), NBTType::Int)])),
        DataType::NBT(NBTType::Arr(NBTArrayType::Int(3))),
    ];
    for t in &types {
        assert!(t.is_trivially_castable(t));
    }
}

#[test]
fn score_casts_are_not_transitive() {
    // Bool casts to Score and Score to UScore, but Bool does not cast to UScore
    assert!(ScoreType::Bool.is_trivially_castable(&ScoreType::Score));
    assert!(ScoreType::Score.is_trivially_castable(&ScoreType::UScore));
    assert!(!ScoreType::Bool.is_trivially_castable(&ScoreType::UScore));
}

#[test]
fn nbt_casts() {
    assert!(NBTType::Byte.is_trivially_castable(&NBTType::Int));
    assert!(!NBTType::Int.is_trivially_castable(&NBTType::Byte));
    assert!(NBTType::Float.is_trivially_castable(&NBTType::Double));
    assert!(NBTType::String.is_trivially_castable(&NBTType::Any));
    assert!(NBTType::Int.is_int_type());
    assert!(!NBTType::String.is_int_type());
    assert!(NBTType::Short.is_castable_to_score(&ScoreType::Bool));
    let one = NBTType::Compound(vec![("a".to_string(), NBTType::Int)]);
    let two = NBTType::Compound(vec![("a".to_string(), NBTType::Int), ("b".to_string(), NBTType::Int)]);
    assert!(one.is_trivially_castable(&two));
    assert!(!two.is_trivially_castable(&one));
    assert!(!one.is_trivially_castable(&NBTType::Int));
}

#[test]
fn score_constants() {
    assert_eq!(ScoreTypeContents::Score(-4).get_literal_str(), "-4");
    assert_eq!(ScoreTypeContents::UScore(9).get_i32(), 9);
    assert_eq!(ScoreTypeContents::Bool(true).get_i32(), 1);
    assert!(ScoreTypeContents::Bool(true).is_value_eq(&ScoreTypeContents::Score(1)));
    assert!(matches!(ScoreTypeContents::UScore(1).get_ty(), DataType::Score(ScoreType::UScore)));
}

#[test]
fn array_constants() {
    let bytes = create_nbyte_array(vec![1, -2]);
    assert_eq!(bytes.get_literal_str(), "[B;1b,-2b]");
    assert_eq!(*bytes.get_size(), 2);
    let ints = create_nint_array(vec![5, 6, 7]);
    assert_eq!(ints.get_literal_str(), "[I;5,6,7]");
    assert_eq!(ints.const_index(1), Some("6".to_string()));
    assert_eq!(ints.const_index(3), None);
    let longs = create_nlong_array(vec![]);
    assert_eq!(longs.get_literal_str(), "[L;]");
    assert!(ints.is_value_eq(&NBTArrayTypeContents::Int(vec![5, 6, 7], 3)));
}

#[test]
fn nbt_literals() {
    assert_eq!(NBTTypeContents::Byte(3).get_literal_str(), "3b");
    assert_eq!(NBTTypeContents::Bool(false).get_literal_str(), "0b");
    assert_eq!(NBTTypeContents::Short(-1).get_literal_str(), "-1s");
    assert_eq!(NBTTypeContents::Int(42).get_literal_str(), "42");
    assert_eq!(NBTTypeContents::Long(8).get_literal_str(), "8l");
    assert_eq!(NBTTypeContents::String("a\"b".to_string()).get_literal_str(), "\"a\\\"b\"");
    let list = NBTTypeContents::List(NBTType::Int, vec![NBTTypeContents::Int(1), NBTTypeContents::Int(2)]);
    assert_eq!(list.get_literal_str(), "1,2");
}

#[test]
fn strings_are_quoted_and_escaped() {
    assert_eq!(write_string("hi".to_string()), "\"hi\"");
    assert_eq!(write_string("\"".to_string()), "\"\\\"\"");
}

#[test]
fn compounds_read_a_repeated_name_by_its_first_field() {
    let repeated = NBTType::Compound(vec![("a".to_string(), NBTType::Int), ("a".to_string(), NBTType::Byte)]);
    assert!(repeated.is_trivially_castable(&repeated));
    assert!(repeated.is_trivially_castable(&NBTType::Any));
    let first = NBTType::Compound(vec![("a".to_string(), NBTType::Int)]);
    assert!(repeated.is_trivially_castable(&first));
    assert!(first.is_trivially_castable(&repeated));
    let byte = NBTType::Compound(vec![("a".to_string(), NBTType::Byte)]);
    assert!(!byte.is_trivially_castable(&repeated));
    let nested = NBTType::List(Box::new(repeated));
    assert!(nested.is_trivially_castable(&nested));
}
