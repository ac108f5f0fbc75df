use katana::codes::CodeHandler;
use katana::codes::Node;
use katana::codes::StructuredPrinter;

fn printer_inside(parents: &[&str], written: &str) -> StructuredPrinter {
    StructuredPrinter {
        parent_chain: parents.iter().map(|parent| String::from(*parent)).collect(),
        data: String::from(written),
    }
}

fn element(name: &str) -> Node {
    Node::Element { name: String::from(name) }
}

#[test]
fn printer_appends_what_it_is_given() {
    let mut printer = printer_inside(&["html"], "so far");
    printer.append_str(" and more");
    printer.insert_newline();
    assert_eq!(printer.data, "so far and more\n");
    assert_eq!(printer.parent_chain, vec!["html"]);
}

#[test]
fn block_of_code_is_fenced_on_lines_of_its_own() {
    let mut handler = CodeHandler::default();
    let mut printer = printer_inside(&["html", "body"], "text");
    handler.handle(&element("pre"), &mut printer);
    assert_eq!(printer.data, "text\n\n```\n");
    printer.append_str("let x = 1;");
    handler.after_handle(&mut printer);
    assert_eq!(printer.data, "text\n\n```\nlet x = 1;\n```\n\n");
    assert_eq!(printer.parent_chain, vec!["html", "body"]);
}

#[test]
fn code_within_a_line_is_set_between_backticks() {
    let mut handler = CodeHandler::default();
    let mut printer = printer_inside(&["html", "p"], "call ");
    handler.handle(&element("code"), &mut printer);
    printer.append_str("cut");
    handler.after_handle(&mut printer);
    assert_eq!(printer.data, "call `cut`");
}

#[test]
fn sample_is_set_between_backticks() {
    let mut handler = CodeHandler::default();
    let mut printer = printer_inside(&["pre"], "");
    handler.handle(&element("samp"), &mut printer);
    printer.append_str("out");
    handler.after_handle(&mut printer);
    assert_eq!(printer.data, "`out`");
}

#[test]
fn code_right_inside_a_block_gets_nothing() {
    let mut handler = CodeHandler::default();
    let mut printer = printer_inside(&["html", "pre"], "\n```\n");
    handler.handle(&element("code"), &mut printer);
    assert_eq!(printer.data, "\n```\n");
    handler.after_handle(&mut printer);
    assert_eq!(printer.data, "\n```\n");
}

#[test]
fn code_deeper_inside_a_block_gets_its_backticks() {
    let mut handler = CodeHandler::default();
    let mut printer = printer_inside(&["pre", "span"], "");
    handler.handle(&element("code"), &mut printer);
    assert_eq!(printer.data, "`");
}

#[test]
fn other_nodes_get_nothing() {
    let mut handler = CodeHandler::default();
    let mut printer = printer_inside(&["body"], "x");
    handler.handle(&element("p"), &mut printer);
    handler.after_handle(&mut printer);
    handler.handle(&Node::Other, &mut printer);
    handler.after_handle(&mut printer);
    assert_eq!(printer.data, "x");
}

#[test]
fn handler_that_met_nothing_writes_nothing() {
    let mut handler = CodeHandler::default();
    let mut printer = printer_inside(&["pre"], "x");
    handler.do_handle(&mut printer, true);
    handler.do_handle(&mut printer, false);
    assert_eq!(printer.data, "x");
}

#[test]
fn handler_keeps_the_element_it_met_last() {
    let mut handler = CodeHandler::default();
    let mut printer = printer_inside(&["body"], "");
    handler.handle(&element("pre"), &mut printer);
    handler.handle(&Node::Other, &mut printer);
    handler.do_handle(&mut printer, false);
    assert_eq!(printer.data, "\n\n```\n");
}
