use book_analytics::utils::add_to_vec;

#[test]
fn test_add_to_vec_empty() {
    let mut vec_option: Option<Vec<i32>> = None;
    add_to_vec(&mut vec_option, 5);
    assert_eq!(vec_option, Some(vec![5]));
}

#[test]
fn test_add_to_vec_duplicate() {
    let mut vec_option = Some(vec![5, 6, 7]);
    add_to_vec(&mut vec_option, 5);
    assert_eq!(vec_option, Some(vec![5, 6, 7]));
}

#[test]
fn test_add_to_vec_new_item() {
    let mut vec_option = Some(vec![5, 6, 7]);
    add_to_vec(&mut vec_option, 8);
    assert_eq!(vec_option, Some(vec![5, 6, 7, 8]));
}

#[test]
fn test_add_to_vec_strings() {
    let mut vec_option = Some(vec!["alpha".to_string()]);
    add_to_vec(&mut vec_option, "beta".to_string());
    add_to_vec(&mut vec_option, "alpha".to_string());
    assert_eq!(vec_option, Some(vec!["alpha".to_string(), "beta".to_string()]));
}
