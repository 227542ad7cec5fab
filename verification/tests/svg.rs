use animate::svg::escape_xml;

#[test]
fn reserved_characters_become_entities() {
    assert_eq!(escape_xml("a<b>&\"c\""), "a&lt;b&gt;&amp;&quot;c&quot;");
}

#[test]
fn an_entity_is_escaped_once_more() {
    assert_eq!(escape_xml("&lt;"), "&amp;lt;");
    assert_eq!(escape_xml("&amp;"), "&amp;amp;");
}

#[test]
fn other_text_is_unchanged() {
    assert_eq!(escape_xml(""), "");
    assert_eq!(escape_xml("Layer 1 'x' é"), "Layer 1 'x' é");
}
