use jni_bindgen::descriptor::BasicType;
use jni_bindgen::descriptor::DescriptorSegment;
use jni_bindgen::descriptor::FieldType;
use jni_bindgen::descriptor::MethodDescriptor;

#[test]
fn parse_no_params_void() {
    let d = MethodDescriptor::parse("()V").unwrap();
    assert_eq!(d.params.len(), 0);
    assert_eq!(d.ret, FieldType::Single(BasicType::Void));
}

#[test]
fn parse_primitives() {
    let d = MethodDescriptor::parse("(ZBCSIJFD)I").unwrap();
    assert_eq!(d.params.len(), 8);
    assert_eq!(d.params[0], FieldType::Single(BasicType::Boolean));
    assert_eq!(d.params[1], FieldType::Single(BasicType::Byte));
    assert_eq!(d.params[2], FieldType::Single(BasicType::Char));
    assert_eq!(d.params[3], FieldType::Single(BasicType::Short));
    assert_eq!(d.params[4], FieldType::Single(BasicType::Int));
    assert_eq!(d.params[5], FieldType::Single(BasicType::Long));
    assert_eq!(d.params[6], FieldType::Single(BasicType::Float));
    assert_eq!(d.params[7], FieldType::Single(BasicType::Double));
    assert_eq!(d.ret, FieldType::Single(BasicType::Int));
}

#[test]
fn parse_class_and_array() {
    let d = MethodDescriptor::parse("(Ljava/lang/String;[I)V").unwrap();
    assert_eq!(d.params.len(), 2);
    assert_eq!(
        d.params[0],
        FieldType::Single(BasicType::Class("java/lang/String".to_string()))
    );
    assert_eq!(
        d.params[1],
        FieldType::Array { levels: 1, inner: BasicType::Int }
    );
}

#[test]
fn parse_multi_level_array_is_representable() {
    let d = MethodDescriptor::parse("([[I)V").unwrap();
    assert_eq!(
        d.params[0],
        FieldType::Array { levels: 2, inner: BasicType::Int }
    );
}

#[test]
fn parse_rejects_malformed() {
    assert!(MethodDescriptor::parse("").is_err());
    assert!(MethodDescriptor::parse("()").is_err());
    assert!(MethodDescriptor::parse("(").is_err());
    assert!(MethodDescriptor::parse("I)V").is_err());
    assert!(MethodDescriptor::parse("(Q)V").is_err());
    assert!(MethodDescriptor::parse("(I)VV").is_err());
    assert!(MethodDescriptor::parse("(Ljava/lang/String)V").is_err());
    assert!(MethodDescriptor::parse("(I)").is_err());
}

#[test]
fn round_trip_is_lossless() {
    for s in [
        "()V",
        "(ZBCSIJFD)I",
        "(Ljava/lang/String;[I)V",
        "([[I[Ljava/a/B;)Ljava/lang/Object;",
        "(V)V",
    ] {
        let d = MethodDescriptor::parse(s).unwrap();
        assert_eq!(d.descriptor_string(), s);
    }
}

#[test]
fn segments_end_in_single_return() {
    let d = MethodDescriptor::parse("(IJ)D").unwrap();
    let segs = d.segments();
    assert_eq!(segs.len(), 3);
    assert_eq!(
        segs[0],
        DescriptorSegment::Parameter(FieldType::Single(BasicType::Int))
    );
    assert_eq!(
        segs[1],
        DescriptorSegment::Parameter(FieldType::Single(BasicType::Long))
    );
    assert_eq!(
        segs[2],
        DescriptorSegment::Return(FieldType::Single(BasicType::Double))
    );
    let returns = segs
        .iter()
        .filter(|s| matches!(s, DescriptorSegment::Return(_)))
        .count();
    assert_eq!(returns, 1);
}

#[test]
fn fallback_is_trivial_descriptor() {
    let d = MethodDescriptor::fallback();
    assert_eq!(d.params.len(), 0);
    assert_eq!(d.ret, FieldType::Single(BasicType::Void));
    assert_eq!(d.descriptor_string(), "()V");
}
