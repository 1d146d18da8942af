use hml_rs::error::MarkupError;
use hml_rs::names::attribute::{Attribute, Attributes};
use hml_rs::names::ids::{NSMap, NSNameId, NSPrefixId, NSUriId};
use hml_rs::names::name::Name;
use hml_rs::names::namespace::Namespace;
use hml_rs::names::namespace_stack::NamespaceStack;
use hml_rs::names::tag::Tag;

fn dump_namespace(nst: &NamespaceStack) {
    for i in nst.mappings() {
        println!("{}", nst.fmt_map(i));
    }
}

#[test]
fn namespace_stack_test_defaults() {
    let mut ns = Namespace::new(false);
    let mut nst = NamespaceStack::new(&mut ns);

    nst.add_default_xmls();

    assert_eq!(nst.mappings().len(), 3);

    let pid = nst.find_prefix_id("").unwrap();
    assert!(pid.is_none());
    assert_eq!(nst.borrow_prefix(pid), "");
    assert_eq!(nst.borrow_uri(nst.find_mapping(pid).unwrap()), "");

    let pid = nst.find_prefix_id("xml").unwrap();
    assert_eq!(nst.borrow_prefix(pid), "xml");
    assert_eq!(
        nst.borrow_uri(nst.find_mapping(pid).unwrap()),
        "http://www.w3.org/XML/1998/namespace"
    );

    let pid = nst.find_prefix_id("xmlns").unwrap();
    assert_eq!(nst.borrow_prefix(pid), "xmlns");
    assert_eq!(
        nst.borrow_uri(nst.find_mapping(pid).unwrap()),
        "http://www.w3.org/2000/xmlns/"
    );

    let pid = nst.find_prefix_id("fred");
    assert_eq!(pid, None);

    nst.push_frame();

    nst.add_ns("fred", "http://fred.com");
    assert_eq!(nst.mappings().len(), 4);

    let pid = nst.find_prefix_id("fred").unwrap();
    assert_eq!(nst.borrow_prefix(pid), "fred");
    assert_eq!(
        nst.borrow_uri(nst.find_mapping(pid).unwrap()),
        "http://fred.com"
    );

    nst.add_ns_if_unset("fred", "http://NOTfred.com");
    assert_eq!(
        nst.borrow_uri(nst.find_mapping(pid).unwrap()),
        "http://fred.com"
    );

    nst.add_ns("fred", "http://fred2.com");
    assert_eq!(
        nst.borrow_uri(nst.find_mapping(pid).unwrap()),
        "http://fred2.com"
    );

    nst.add_ns("xml", "http://xml_override");
    let pid = nst.find_prefix_id("xml").unwrap();
    assert_eq!(nst.borrow_prefix(pid), "xml");
    assert_eq!(
        nst.borrow_uri(nst.find_mapping(pid).unwrap()),
        "http://xml_override"
    );

    dump_namespace(&nst);

    nst.pop_frame();

    assert_eq!(nst.mappings().len(), 3);

    let pid = nst.find_prefix_id("").unwrap();
    assert!(pid.is_none());
    assert_eq!(nst.borrow_prefix(pid), "");
    assert_eq!(nst.borrow_uri(nst.find_mapping(pid).unwrap()), "");

    let pid = nst.find_prefix_id("xml").unwrap();
    assert_eq!(nst.borrow_prefix(pid), "xml");
    assert_eq!(
        nst.borrow_uri(nst.find_mapping(pid).unwrap()),
        "http://www.w3.org/XML/1998/namespace"
    );

    let pid = nst.find_prefix_id("xmlns").unwrap();
    assert_eq!(nst.borrow_prefix(pid), "xmlns");
    assert_eq!(
        nst.borrow_uri(nst.find_mapping(pid).unwrap()),
        "http://www.w3.org/2000/xmlns/"
    );

    let pid = nst.find_prefix_id("fred").unwrap(); // Note not None any more
    assert_eq!(nst.find_mapping(pid), None);
}

#[test]
fn ids_none_and_index() {
    assert!(NSPrefixId::none().is_none());
    assert!(!NSPrefixId::none().is_some());
    assert_eq!(NSPrefixId::none().get(), None);
    assert_eq!(NSPrefixId::new(0).get(), Some(0));
    assert_eq!(NSUriId::new(7).get(), Some(7));
    assert!(NSUriId::new(7).is_some());
    assert_eq!(NSNameId::new(41).get(), Some(41));
    assert!(NSNameId::none().is_none());
    let m = NSMap::new(NSPrefixId::new(2), NSUriId::new(3));
    assert_eq!(m.prefix_id(), NSPrefixId::new(2));
    assert_eq!(m.uri_id(), NSUriId::new(3));
}

#[test]
fn pool_interns_each_string_once() {
    let mut ns = Namespace::new(true);
    assert!(ns.uses_xmlns());
    let a = ns.find_or_add_name("alpha");
    let b = ns.find_or_add_name("beta");
    let a2 = ns.find_or_add_name("alpha");
    assert_eq!(a, a2);
    assert_ne!(a, b);
    assert_eq!(a.get(), Some(0));
    assert_eq!(b.get(), Some(1));
    assert_eq!(ns.find_name("alpha"), Some(a));
    assert_eq!(ns.find_name("gamma"), None);
    assert_eq!(ns.find_name(""), Some(NSNameId::none()));
    assert!(ns.find_or_add_prefix("").is_none());
    assert!(ns.find_or_add_uri("").is_none());
    assert_eq!(ns.name_str(b, "x"), "beta");
    assert_eq!(ns.name_str(NSNameId::none(), "x"), "x");
    let m = ns.add_mapping("p", "u");
    let m2 = ns.add_mapping("p", "u");
    assert_eq!(m, m2);
    assert_eq!(ns.prefix_str(m.prefix_id(), ""), "p");
    assert_eq!(ns.uri_str(m.uri_id(), ""), "u");
}

#[test]
fn stack_resolves_from_the_top() {
    let mut ns = Namespace::new(false);
    let mut nst = NamespaceStack::new(&mut ns);
    assert_eq!(nst.stack_depth(), 1);
    let outer = nst.add_ns("p", "outer");
    nst.push_frame();
    assert_eq!(nst.find_mapping(outer.prefix_id()), Some(outer.uri_id()));
    let inner = nst.add_ns("p", "inner");
    assert_eq!(inner.prefix_id(), outer.prefix_id());
    assert_eq!(nst.find_mapping(outer.prefix_id()), Some(inner.uri_id()));
    assert_eq!(nst.iter_top_mappings(), vec![inner]);
    let all = nst.mappings();
    assert!(all.contains(&inner));
    assert!(!all.contains(&outer));
    let (again, done) = nst.add_ns_if_unset("p", "other");
    assert!(!done);
    assert_eq!(again.prefix_id(), inner.prefix_id());
    assert_eq!(nst.find_mapping(outer.prefix_id()), Some(inner.uri_id()));
    nst.pop_frame();
    assert_eq!(nst.find_mapping(outer.prefix_id()), Some(outer.uri_id()));
    assert_eq!(nst.stack_depth(), 1);
    assert_eq!(nst.fmt_map(outer), "'p' => 'outer'");
    assert_eq!(nst.borrow_mapping(outer), ("p", "outer"));
}

#[test]
fn names_from_strings() {
    let mut ns = Namespace::new(true);
    let mut nst = NamespaceStack::new(&mut ns);
    let n = Name::from_str(&mut nst, "xml:lang").unwrap();
    assert!(n.has_prefix());
    assert!(n.has_uri());
    assert_eq!(n.to_string(&nst), "xml:lang");
    assert_eq!(nst.uri_str(n.uri), "http://www.w3.org/XML/1998/namespace");
    let l = Name::from_str(&mut nst, "lang").unwrap();
    assert!(!l.has_prefix());
    assert!(!l.has_uri());
    assert_eq!(l.name, n.name);
    assert_eq!(l.to_string(&nst), "lang");
    assert_eq!(
        Name::from_str(&mut nst, "a:b:c"),
        Err(MarkupError::BadName {
            name: "a:b:c".to_string()
        })
    );
    assert_eq!(Name::from_str(&mut nst, ""), Err(MarkupError::EmptyName {}));
    assert_eq!(
        Name::from_str(&mut nst, "xml:"),
        Err(MarkupError::EmptyName {})
    );
    assert_eq!(
        Name::new(&mut nst, "nope", "x"),
        Err(MarkupError::UnmappedPrefix {
            prefix: "nope".to_string()
        })
    );
    assert_eq!(Name::new_local(&mut nst, ""), Err(MarkupError::EmptyName {}));
    assert_eq!(nst.find_prefix_id("nope"), None);
    assert_eq!(Name::none().to_string(&nst), "");
}

#[test]
fn identifiers_as_text() {
    assert_eq!(NSPrefixId::none().to_string(), "None");
    assert_eq!(NSPrefixId::new(0).to_string(), "0");
    assert_eq!(NSUriId::new(12).to_string(), "12");
    assert_eq!(NSNameId::new(305).to_string(), "305");
    assert_eq!(
        NSMap::new(NSPrefixId::none(), NSUriId::new(4)).to_string(),
        "None => 4"
    );
}

#[test]
fn attributes_keep_their_order() {
    let mut ns = Namespace::new(true);
    let mut nst = NamespaceStack::new(&mut ns);
    nst.push_frame();
    let mut attrs = Attributes::new();
    assert!(attrs.is_empty());
    attrs.add(&mut nst, "", "a", "1".to_string()).unwrap();
    attrs.add(&mut nst, "", "a", "2".to_string()).unwrap();
    assert!(attrs.add(&mut nst, "q", "a", "3".to_string()).is_err());
    attrs
        .add(&mut nst, "xmlns", "q", "urn:q".to_string())
        .unwrap();
    attrs.add(&mut nst, "q", "a", "3".to_string()).unwrap();
    let mut more = Attributes::default();
    more.add(&mut nst, "", "xmlns", "urn:d".to_string()).unwrap();
    attrs.steal(&mut more);
    assert!(more.is_empty());
    assert!(!attrs.is_empty());
    let values: Vec<&str> = attrs.attributes().iter().map(|a| a.value.as_str()).collect();
    assert_eq!(values, vec!["1", "2", "urn:q", "3", "urn:d"]);
    let tag = Tag::new(&mut nst, "q", "t", attrs).unwrap();
    assert_eq!(nst.uri_str(tag.name.uri), "urn:q");
    let all = tag.attributes.take();
    assert_eq!(nst.uri_str(all[3].name.uri), "urn:q");
    assert_eq!(nst.uri_str(all[0].name.uri), "");
    assert_eq!(nst.name_str(all[4].name.name), "xmlns");
    assert_eq!(nst.prefix_str(all[4].name.prefix), "xmlns");
    let bare = Attribute::new(&mut nst, "", "b", "4".to_string()).unwrap();
    assert_eq!(nst.uri_str(bare.name.uri), "urn:d");
    nst.pop_frame();
    assert!(Tag::new(&mut nst, "q", "t", Attributes::new()).is_err());
}
