use mysql_prepare::message::ColumnDefinition;
use mysql_prepare::statement::{ColumnDescriptor, ParameterTypeInfo, StatementBuilder};

fn column(name: &str, type_tag: u8) -> ColumnDefinition {
    ColumnDefinition {
        name: name.to_string(),
        collation: 224,
        max_size: 1020,
        type_tag,
        flags: 0x0080,
        decimals: 31,
    }
}

#[test]
fn new_builder_is_empty_whatever_room_it_has() {
    for (parameters, columns) in [(0, 0), (3, 1), (u16::MAX, u16::MAX)] {
        let builder = StatementBuilder::new(parameters, columns);
        assert_eq!(builder.parameter_count(), 0);
        assert_eq!(builder.column_count(), 0);
        let statement = builder.finish();
        assert!(statement.parameters().is_empty());
        assert!(statement.columns().is_empty());
    }
}

#[test]
fn parameter_keeps_only_the_type() {
    let definition = column("ignored", 246);
    assert_eq!(ParameterTypeInfo::new(&definition), ParameterTypeInfo { type_tag: 246 });
    let mut other = column("also ignored", 246);
    other.flags = 0;
    other.collation = 63;
    other.max_size = 0;
    other.decimals = 0;
    assert_eq!(ParameterTypeInfo::new(&other), ParameterTypeInfo::new(&definition));
}

#[test]
fn parameters_are_kept_in_order() {
    let mut builder = StatementBuilder::new(3, 0);
    for tag in [8u8, 253, 12] {
        builder = builder.push_parameter(&column("?", tag));
    }
    assert_eq!(builder.parameter_count(), 3);
    assert_eq!(builder.column_count(), 0);
    let statement = builder.finish();
    let tags: Vec<u8> = statement.parameters().iter().map(|info| info.type_tag).collect();
    assert_eq!(tags, vec![8, 253, 12]);
    assert!(statement.columns().is_empty());
}

#[test]
fn column_index_is_the_arrival_position() {
    let mut builder = StatementBuilder::new(0, 3);
    builder = builder.push_column(column("c", 3));
    builder = builder.push_parameter(&column("?", 1));
    builder = builder.push_column(column("a", 253));
    builder = builder.push_column(column("c", 3));
    assert_eq!(builder.column_count(), 3);
    assert_eq!(builder.parameter_count(), 1);
    let statement = builder.finish();
    assert_eq!(
        statement.columns(),
        &[
            ColumnDescriptor { index: 0, definition: column("c", 3) },
            ColumnDescriptor { index: 1, definition: column("a", 253) },
            ColumnDescriptor { index: 2, definition: column("c", 3) },
        ]
    );
    assert_eq!(statement.parameters(), &[ParameterTypeInfo { type_tag: 1 }]);
}

#[test]
fn builder_takes_more_than_the_room_it_was_given() {
    let mut builder = StatementBuilder::new(0, 1);
    for i in 0..10u8 {
        builder = builder.push_column(column("x", i));
    }
    let statement = builder.finish();
    assert_eq!(statement.columns().len(), 10);
    for (i, descriptor) in statement.columns().iter().enumerate() {
        assert_eq!(descriptor.index, i);
        assert_eq!(descriptor.definition.type_tag, i as u8);
    }
}

#[test]
fn column_descriptor_holds_the_definition_as_it_came() {
    let descriptor = ColumnDescriptor::new(4, column("total", 246));
    assert_eq!(descriptor.index, 4);
    assert_eq!(descriptor.definition.name, "total");
    assert_eq!(descriptor.definition.collation, 224);
    assert_eq!(descriptor.definition.max_size, 1020);
    assert_eq!(descriptor.definition.type_tag, 246);
    assert_eq!(descriptor.definition.flags, 0x0080);
    assert_eq!(descriptor.definition.decimals, 31);
}
