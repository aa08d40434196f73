use window_list::descriptor::{
    complete_bounds, de_x, de_y, decode, decode_bounds, decode_coordinate, decode_integer,
    decode_node, decode_number, decode_string, scan_geometry, DecodeError, Field, Number,
    PartialBounds, WindowBounds,
};
use window_list::document::{Entry, Node};

fn entry(key: &str, value: Node) -> Entry {
    Entry { key: key.to_string(), value }
}

fn text(s: &str) -> Node {
    Node::Text(s.to_string())
}

fn bounds(x: Node, y: Node) -> Node {
    Node::Dictionary(vec![
        entry("Height", Node::Signed(600)),
        entry("Width", Node::Signed(800)),
        entry("X", x),
        entry("Y", y),
    ])
}

fn window(bounds: Node) -> Vec<Entry> {
    vec![
        entry("kCGWindowAlpha", Node::Real(1.0f64.to_bits())),
        entry("kCGWindowBounds", bounds),
        entry("kCGWindowIsOnscreen", Node::Signed(1)),
        entry("kCGWindowLayer", Node::Signed(0)),
        entry("kCGWindowMemoryUsage", Node::Signed(1152)),
        entry("kCGWindowName", text("Editor")),
        entry("kCGWindowNumber", Node::Signed(77)),
        entry("kCGWindowOwnerName", text("Code")),
        entry("kCGWindowOwnerPID", Node::Signed(100)),
        entry("kCGWindowSharingState", Node::Signed(1)),
        entry("kCGWindowStoreType", Node::Signed(2)),
    ]
}

fn plain() -> Vec<Entry> {
    window(bounds(Node::Signed(10), Node::Signed(20)))
}

fn without(entries: Vec<Entry>, key: &str) -> Vec<Entry> {
    entries.into_iter().filter(|e| e.key != key).collect()
}

fn with(entries: Vec<Entry>, key: &str, value: Node) -> Vec<Entry> {
    let mut out = without(entries, key);
    out.push(entry(key, value));
    out
}

fn record(x: &str, y: &str) -> String {
    format!(
        "<?xml version=\"1.0\" encoding=\"UTF-8\"?>\n<plist version=\"1.0\"><dict>\
         <key>kCGWindowAlpha</key><real>1</real>\
         <key>kCGWindowBounds</key><dict>\
         <key>Height</key><integer>600</integer>\
         <key>Width</key><integer>800</integer>\
         <key>X</key>{}<key>Y</key>{}</dict>\
         <key>kCGWindowIsOnscreen</key><integer>1</integer>\
         <key>kCGWindowLayer</key><integer>0</integer>\
         <key>kCGWindowMemoryUsage</key><integer>1152</integer>\
         <key>kCGWindowName</key><string>Editor</string>\
         <key>kCGWindowNumber</key><integer>77</integer>\
         <key>kCGWindowOwnerName</key><string>Code</string>\
         <key>kCGWindowOwnerPID</key><integer>100</integer>\
         <key>kCGWindowSharingState</key><integer>1</integer>\
         <key>kCGWindowStoreType</key><integer>2</integer>\
         </dict></plist>",
        x, y
    )
}

#[test]
fn decodes_a_full_record() {
    let window = decode(&record("<string>10</string>", "<integer>20</integer>")).unwrap();
    assert_eq!(window.bounds, WindowBounds { height: 600, width: 800, x: 10, y: 20 });
    assert_eq!(window.name, "Editor");
    assert_eq!(window.owner_name, "Code");
    assert_eq!(window.owner_pid, 100);
    assert_eq!(window.number, 77);
    assert_eq!(window.memory_usage, 1152);
    assert_eq!(window.is_onscreen, 1);
    assert_eq!(window.layer, 0);
    assert_eq!(window.sharing_state, 1);
    assert_eq!(window.store_type, 2);
    assert_eq!(window.alpha, Number::Real(1.0f64.to_bits()));
    assert_eq!(window.index, 0);
}

#[test]
fn decodes_the_old_style_format() {
    let text = "{\n    kCGWindowAlpha = 1;\n    kCGWindowBounds =     {\n        \
                Height = 22;\n        Width = 1440;\n        X = \"-1440\";\n        \
                Y = 0;\n    };\n    kCGWindowIsOnscreen = 1;\n    kCGWindowLayer = 25;\n    \
                kCGWindowMemoryUsage = 1152;\n    kCGWindowName = \"Item-0\";\n    \
                kCGWindowNumber = 42;\n    kCGWindowOwnerName = SystemUIServer;\n    \
                kCGWindowOwnerPID = 312;\n    kCGWindowSharingState = 1;\n    \
                kCGWindowStoreType = 1;\n}\n";
    let window = decode(text).unwrap();
    assert_eq!(window.alpha, Number::Signed(1));
    assert_eq!(window.bounds, WindowBounds { height: 22, width: 1440, x: -1440, y: 0 });
    assert_eq!(window.layer, 25);
    assert_eq!(window.name, "Item-0");
    assert_eq!(window.number, 42);
    assert_eq!(window.owner_name, "SystemUIServer");
    assert_eq!(window.owner_pid, 312);
    assert_eq!(window.index, 0);
}

#[test]
fn decodes_alike_from_integer_and_from_text() {
    let integer = "<integer>42</integer>";
    let string = "<string>42</string>";
    let a = decode(&record(integer, integer)).unwrap();
    let b = decode(&record(string, string)).unwrap();
    let c = decode(&record(integer, string)).unwrap();
    let d = decode(&record(string, integer)).unwrap();
    assert_eq!(a.bounds.x, 42);
    assert_eq!(a.bounds.y, 42);
    assert_eq!(a, b);
    assert_eq!(a, c);
    assert_eq!(a, d);
}

#[test]
fn decodes_alike_from_integer_and_from_text_in_a_tree() {
    let a = decode_node(&Node::Dictionary(window(bounds(Node::Signed(42), text("-7")))));
    let b = decode_node(&Node::Dictionary(window(bounds(text("42"), Node::Signed(-7)))));
    let c = decode_node(&Node::Dictionary(window(bounds(Node::Unsigned(42), text("-7")))));
    assert_eq!(a, b);
    assert_eq!(a, c);
    let window = a.unwrap();
    assert_eq!(window.bounds.x, 42);
    assert_eq!(window.bounds.y, -7);
}

#[test]
fn rejects_a_coordinate_of_another_type() {
    for leaf in ["<true/>", "<false/>", "<real>1.5</real>", "<array/>", "<dict/>",
        "<data>AAEC</data>"]
    {
        assert_eq!(
            decode(&record(leaf, "<integer>20</integer>")),
            Err(DecodeError::FieldCoercion(Field::X))
        );
        assert_eq!(
            decode(&record("<integer>10</integer>", leaf)),
            Err(DecodeError::FieldCoercion(Field::Y))
        );
    }
}

#[test]
fn rejects_a_coordinate_that_is_no_number() {
    for leaf in ["<string>ten</string>", "<string></string>", "<string> 10</string>",
        "<string>10.0</string>", "<string>2147483648</string>", "<string>0x10</string>"]
    {
        assert_eq!(
            decode(&record(leaf, "<integer>20</integer>")),
            Err(DecodeError::FieldCoercion(Field::X))
        );
        assert_eq!(
            decode(&record("<integer>10</integer>", leaf)),
            Err(DecodeError::FieldCoercion(Field::Y))
        );
    }
}

#[test]
fn rejects_text_that_holds_no_document() {
    assert_eq!(decode(""), Err(DecodeError::Malformed));
    assert_eq!(decode("no property list"), Err(DecodeError::Malformed));
    assert_eq!(decode("<plist version=\"1.0\"><dict>"), Err(DecodeError::Malformed));
}

#[test]
fn rejects_a_root_that_is_no_dictionary() {
    let text = "<?xml version=\"1.0\"?><plist version=\"1.0\"><string>window</string></plist>";
    assert_eq!(decode(text), Err(DecodeError::Malformed));
    assert_eq!(decode_node(&Node::Signed(1)), Err(DecodeError::Malformed));
    assert_eq!(decode_node(&text_node()), Err(DecodeError::Malformed));
    assert_eq!(decode_node(&Node::Other), Err(DecodeError::Malformed));
}

fn text_node() -> Node {
    text("kCGWindowAlpha")
}

#[test]
fn reports_each_missing_field() {
    let fields = [
        ("kCGWindowAlpha", Field::Alpha),
        ("kCGWindowBounds", Field::Bounds),
        ("kCGWindowIsOnscreen", Field::IsOnscreen),
        ("kCGWindowLayer", Field::Layer),
        ("kCGWindowMemoryUsage", Field::MemoryUsage),
        ("kCGWindowName", Field::Name),
        ("kCGWindowNumber", Field::Number),
        ("kCGWindowOwnerName", Field::OwnerName),
        ("kCGWindowOwnerPID", Field::OwnerPid),
        ("kCGWindowSharingState", Field::SharingState),
        ("kCGWindowStoreType", Field::StoreType),
    ];
    for (key, field) in fields {
        let node = Node::Dictionary(without(plain(), key));
        assert_eq!(decode_node(&node), Err(DecodeError::MissingField(field)));
    }
}

#[test]
fn reports_each_missing_geometry_field() {
    let fields =
        [("Height", Field::Height), ("Width", Field::Width), ("X", Field::X), ("Y", Field::Y)];
    for (key, field) in fields {
        let inner = match bounds(Node::Signed(10), Node::Signed(20)) {
            Node::Dictionary(entries) => Node::Dictionary(without(entries, key)),
            _ => unreachable!(),
        };
        assert_eq!(decode_bounds(&inner), Err(DecodeError::MissingField(field)));
        let node = Node::Dictionary(window(inner));
        assert_eq!(decode_node(&node), Err(DecodeError::MissingField(field)));
    }
}

#[test]
fn reports_each_mistyped_field() {
    let fields = [
        ("kCGWindowAlpha", Field::Alpha, text("1")),
        ("kCGWindowBounds", Field::Bounds, Node::Signed(1)),
        ("kCGWindowIsOnscreen", Field::IsOnscreen, text("1")),
        ("kCGWindowLayer", Field::Layer, Node::Real(0)),
        ("kCGWindowMemoryUsage", Field::MemoryUsage, Node::Other),
        ("kCGWindowName", Field::Name, Node::Signed(5)),
        ("kCGWindowNumber", Field::Number, Node::Dictionary(Vec::new())),
        ("kCGWindowOwnerName", Field::OwnerName, Node::Other),
        ("kCGWindowOwnerPID", Field::OwnerPid, Node::Signed(2147483648)),
        ("kCGWindowSharingState", Field::SharingState, Node::Unsigned(u64::MAX)),
        ("kCGWindowStoreType", Field::StoreType, Node::Signed(-2147483649)),
    ];
    for (key, field, leaf) in fields {
        let node = Node::Dictionary(with(plain(), key, leaf));
        assert_eq!(decode_node(&node), Err(DecodeError::FieldCoercion(field)));
    }
}

#[test]
fn reports_each_mistyped_geometry_field() {
    let fields = [
        ("Height", Field::Height, text("600")),
        ("Width", Field::Width, Node::Real(0)),
        ("X", Field::X, Node::Real(0)),
        ("Y", Field::Y, Node::Other),
    ];
    for (key, field, leaf) in fields {
        let inner = match bounds(Node::Signed(10), Node::Signed(20)) {
            Node::Dictionary(entries) => Node::Dictionary(with(entries, key, leaf)),
            _ => unreachable!(),
        };
        assert_eq!(decode_bounds(&inner), Err(DecodeError::FieldCoercion(field)));
        let node = Node::Dictionary(window(inner));
        assert_eq!(decode_node(&node), Err(DecodeError::FieldCoercion(field)));
    }
}

#[test]
fn reports_a_mistyped_field_before_a_missing_one() {
    let entries = with(without(plain(), "kCGWindowAlpha"), "kCGWindowStoreType", text("1"));
    assert_eq!(
        decode_node(&Node::Dictionary(entries)),
        Err(DecodeError::FieldCoercion(Field::StoreType))
    );
    let inner = Node::Dictionary(vec![entry("Y", Node::Other)]);
    assert_eq!(decode_bounds(&inner), Err(DecodeError::FieldCoercion(Field::Y)));
    let entries = without(window(inner), "kCGWindowAlpha");
    assert_eq!(
        decode_node(&Node::Dictionary(entries)),
        Err(DecodeError::FieldCoercion(Field::Y))
    );
}

#[test]
fn reports_the_first_of_several_defects_in_schema_order() {
    let entries = with(
        with(plain(), "kCGWindowStoreType", text("1")),
        "kCGWindowLayer",
        text("0"),
    );
    assert_eq!(
        decode_node(&Node::Dictionary(entries)),
        Err(DecodeError::FieldCoercion(Field::Layer))
    );
    let entries = without(without(plain(), "kCGWindowStoreType"), "kCGWindowName");
    assert_eq!(
        decode_node(&Node::Dictionary(entries)),
        Err(DecodeError::MissingField(Field::Name))
    );
    let entries = without(window(Node::Dictionary(Vec::new())), "kCGWindowLayer");
    assert_eq!(
        decode_node(&Node::Dictionary(entries)),
        Err(DecodeError::MissingField(Field::Height))
    );
    assert_eq!(
        decode_node(&Node::Dictionary(Vec::new())),
        Err(DecodeError::MissingField(Field::Alpha))
    );
}

#[test]
fn reports_a_mistyped_coordinate_in_any_document() {
    let inner = Node::Dictionary(vec![entry("X", Node::Other)]);
    let r = decode_node(&Node::Dictionary(vec![entry("kCGWindowBounds", inner)]));
    assert_eq!(r, Err(DecodeError::FieldCoercion(Field::X)));
    let inner = Node::Dictionary(vec![entry("X", Node::Other)]);
    let entries = vec![entry("kCGWindowAlpha", text("opaque")), entry("kCGWindowBounds", inner)];
    let r = decode_node(&Node::Dictionary(entries));
    assert_eq!(r, Err(DecodeError::FieldCoercion(Field::Alpha)));
}

#[test]
fn ignores_keys_outside_the_schema() {
    let mut entries = plain();
    entries.insert(0, entry("kCGWindowWorkspace", Node::Signed(3)));
    entries.push(entry("X", text("not a coordinate")));
    entries.push(entry("Height", Node::Other));
    let mut inner = match bounds(Node::Signed(10), Node::Signed(20)) {
        Node::Dictionary(entries) => entries,
        _ => unreachable!(),
    };
    inner.push(entry("kCGWindowAlpha", Node::Other));
    inner.push(entry("Depth", Node::Signed(1)));
    let entries = with(entries, "kCGWindowBounds", Node::Dictionary(inner));
    let window = decode_node(&Node::Dictionary(entries)).unwrap();
    assert_eq!(window, decode_node(&Node::Dictionary(plain())).unwrap());
}

#[test]
fn accepts_fields_in_any_order() {
    let mut entries = plain();
    entries.reverse();
    let window = decode_node(&Node::Dictionary(entries)).unwrap();
    assert_eq!(window, decode_node(&Node::Dictionary(plain())).unwrap());
}

#[test]
fn accepts_an_integer_or_a_real_opacity() {
    let node = Node::Dictionary(with(plain(), "kCGWindowAlpha", Node::Signed(1)));
    assert_eq!(decode_node(&node).unwrap().alpha, Number::Signed(1));
    let node = Node::Dictionary(with(plain(), "kCGWindowAlpha", Node::Unsigned(0)));
    assert_eq!(decode_node(&node).unwrap().alpha, Number::Unsigned(0));
    let half = 0.5f64.to_bits();
    let node = Node::Dictionary(with(plain(), "kCGWindowAlpha", Node::Real(half)));
    assert_eq!(decode_node(&node).unwrap().alpha, Number::Real(half));
    assert_eq!(decode_number(&Node::Real(half), Field::Alpha), Ok(Number::Real(half)));
    assert_eq!(
        decode_number(&text("0.5"), Field::Alpha),
        Err(DecodeError::FieldCoercion(Field::Alpha))
    );
}

#[test]
fn accepts_an_empty_title() {
    let node = Node::Dictionary(with(plain(), "kCGWindowName", text("")));
    assert_eq!(decode_node(&node).unwrap().name, "");
    assert_eq!(decode_string(&text(""), Field::Name), Ok(String::new()));
}

#[test]
fn wraps_an_integer_coordinate_to_32_bits() {
    assert_eq!(de_x(&Node::Signed(4294967301)), Ok(5));
    assert_eq!(de_x(&Node::Signed(2147483648)), Ok(i32::MIN));
    assert_eq!(de_y(&Node::Signed(-2147483649)), Ok(i32::MAX));
    assert_eq!(de_y(&Node::Unsigned(4294967295)), Ok(-1));
    assert_eq!(de_y(&Node::Unsigned(u64::MAX)), Ok(-1));
    assert_eq!(de_x(&Node::Signed(-1440)), Ok(-1440));
}

#[test]
fn names_the_coordinate_that_fails() {
    assert_eq!(de_x(&text("ten")), Err(DecodeError::FieldCoercion(Field::X)));
    assert_eq!(de_y(&text("ten")), Err(DecodeError::FieldCoercion(Field::Y)));
    assert_eq!(de_x(&Node::Real(0)), Err(DecodeError::FieldCoercion(Field::X)));
    assert_eq!(de_y(&Node::Other), Err(DecodeError::FieldCoercion(Field::Y)));
    assert_eq!(
        decode_coordinate(&Node::Dictionary(Vec::new()), Field::X),
        Err(DecodeError::FieldCoercion(Field::X))
    );
    assert_eq!(de_x(&text("+12")), Ok(12));
    assert_eq!(de_y(&text("-2147483648")), Ok(i32::MIN));
}

#[test]
fn keeps_an_integer_field_within_32_bits() {
    assert_eq!(decode_integer(&Node::Signed(2147483647), Field::Layer), Ok(i32::MAX));
    assert_eq!(decode_integer(&Node::Signed(-2147483648), Field::Layer), Ok(i32::MIN));
    assert_eq!(decode_integer(&Node::Unsigned(2147483647), Field::Layer), Ok(i32::MAX));
    assert_eq!(
        decode_integer(&Node::Signed(2147483648), Field::Layer),
        Err(DecodeError::FieldCoercion(Field::Layer))
    );
    assert_eq!(
        decode_integer(&Node::Unsigned(2147483648), Field::Number),
        Err(DecodeError::FieldCoercion(Field::Number))
    );
    assert_eq!(
        decode_integer(&text("5"), Field::Number),
        Err(DecodeError::FieldCoercion(Field::Number))
    );
}

#[test]
fn scans_and_completes_a_geometry() {
    let holder = Node::Dictionary(vec![entry("Width", Node::Signed(8)), entry("Y", text("-3"))]);
    let partial = scan_geometry(&holder).unwrap();
    assert_eq!(partial, PartialBounds { height: None, width: Some(8), x: None, y: Some(-3) });
    assert_eq!(complete_bounds(partial), Err(DecodeError::MissingField(Field::Height)));
    let full = PartialBounds { height: Some(1), width: Some(2), x: Some(3), y: Some(4) };
    assert_eq!(complete_bounds(full), Ok(WindowBounds { height: 1, width: 2, x: 3, y: 4 }));
    let no_y = PartialBounds { height: Some(1), width: Some(2), x: Some(3), y: None };
    assert_eq!(complete_bounds(no_y), Err(DecodeError::MissingField(Field::Y)));
    assert_eq!(
        scan_geometry(&Node::Other),
        Ok(PartialBounds { height: None, width: None, x: None, y: None })
    );
}

#[test]
fn rejects_bounds_that_are_no_dictionary() {
    assert_eq!(decode_bounds(&Node::Signed(0)), Err(DecodeError::FieldCoercion(Field::Bounds)));
    assert_eq!(decode_bounds(&text("{}")), Err(DecodeError::FieldCoercion(Field::Bounds)));
}

#[test]
fn names_keys_and_fields() {
    assert_eq!(Field::X.key(), "X");
    assert_eq!(Field::Y.key(), "Y");
    assert_eq!(Field::Height.key(), "Height");
    assert_eq!(Field::Width.key(), "Width");
    assert_eq!(Field::Alpha.key(), "kCGWindowAlpha");
    assert_eq!(Field::Bounds.key(), "kCGWindowBounds");
    assert_eq!(Field::IsOnscreen.key(), "kCGWindowIsOnscreen");
    assert_eq!(Field::Layer.key(), "kCGWindowLayer");
    assert_eq!(Field::MemoryUsage.key(), "kCGWindowMemoryUsage");
    assert_eq!(Field::Name.key(), "kCGWindowName");
    assert_eq!(Field::Number.key(), "kCGWindowNumber");
    assert_eq!(Field::OwnerName.key(), "kCGWindowOwnerName");
    assert_eq!(Field::OwnerPid.key(), "kCGWindowOwnerPID");
    assert_eq!(Field::SharingState.key(), "kCGWindowSharingState");
    assert_eq!(Field::StoreType.key(), "kCGWindowStoreType");
    assert_eq!(Field::X.name(), "x");
    assert_eq!(Field::Y.name(), "y");
    assert_eq!(Field::OwnerPid.name(), "ownerPid");
    assert_eq!(Field::IsOnscreen.name(), "isOnscreen");
    assert_eq!(Field::MemoryUsage.name(), "memoryUsage");
}

#[test]
fn keeps_the_opacity_as_the_document_encodes_it() {
    let window = decode(&record("<integer>1</integer>", "<integer>2</integer>")).unwrap();
    let opacity = match window.alpha {
        Number::Real(bits) => f64::from_bits(bits),
        Number::Signed(v) => v as f64,
        Number::Unsigned(v) => v as f64,
    };
    assert_eq!(opacity, 1.0);
    let text = record("<integer>1</integer>", "<integer>2</integer>")
        .replace("<real>1</real>", "<real>0.25</real>");
    assert_eq!(decode(&text).unwrap().alpha, Number::Real(0.25f64.to_bits()));
    let text = record("<integer>1</integer>", "<integer>2</integer>")
        .replace("<real>1</real>", "<string>0.25</string>");
    assert_eq!(decode(&text), Err(DecodeError::FieldCoercion(Field::Alpha)));
}

#[test]
fn rejects_a_record_with_a_date() {
    for leaf in ["<date>1981-05-16T11:32:06Z</date>", "<date>9999-12-31T23:59:59-01:00</date>",
        "<date>0000-01-01T00:00:00+01:00</date>"]
    {
        assert_eq!(decode(&record(leaf, "<integer>20</integer>")), Err(DecodeError::Malformed));
        assert_eq!(decode(&record("<integer>10</integer>", leaf)), Err(DecodeError::Malformed));
    }
}
