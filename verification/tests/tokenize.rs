use sysctl_mib::error::CtlError;
use sysctl_mib::path::tokenize;

#[test]
fn plain_path_splits_on_dots() {
    let p = tokenize("kern.ostype").unwrap();
    assert_eq!(p.segments, vec![b"kern".to_vec(), b"ostype".to_vec()]);
    assert!(p.value.is_none());
}

#[test]
fn single_segment_path() {
    let p = tokenize("kern").unwrap();
    assert_eq!(p.segments, vec![b"kern".to_vec()]);
    assert!(p.value.is_none());
}

#[test]
fn assignment_form_yields_value() {
    let p = tokenize("kern.hostname=myhost").unwrap();
    assert_eq!(p.segments, vec![b"kern".to_vec(), b"hostname".to_vec()]);
    assert_eq!(p.value, Some(b"myhost".to_vec()));
}

#[test]
fn empty_value_is_allowed() {
    let p = tokenize("kern.hostname=").unwrap();
    assert_eq!(p.value, Some(Vec::new()));
}

#[test]
fn two_assignment_delimiters_rejected() {
    assert_eq!(tokenize("kern.hostname=a=b"), Err(CtlError::MalformedPath));
}

#[test]
fn value_containing_hierarchy_delimiter_rejected() {
    assert_eq!(tokenize("kern.hostname=my.host"), Err(CtlError::MalformedPath));
}

#[test]
fn empty_segment_rejected() {
    assert_eq!(tokenize("kern..ostype"), Err(CtlError::MalformedPath));
    assert_eq!(tokenize(".kern.ostype"), Err(CtlError::MalformedPath));
    assert_eq!(tokenize("kern.ostype."), Err(CtlError::MalformedPath));
}

#[test]
fn empty_input_rejected() {
    assert_eq!(tokenize(""), Err(CtlError::MalformedPath));
    assert_eq!(tokenize("=x"), Err(CtlError::MalformedPath));
}
