use mento_core::catalog::{
    get_subcategories,
    group_services_by_category,
    new_category,
    new_subcategory,
    resolve_subcategory_parent,
    CreateCategoryDto,
    CreateSubcategoryDto,
    MainCategory,
    ParentResolution,
    Service,
};
use mento_core::errors::{STATUS_BAD_REQUEST, STATUS_NOT_FOUND};

fn catalog_service(tag: u8, category: &[u8], name: &str, icon: &str) -> Service {
    let mut id = b"000000000000000000003a0".to_vec();
    id.push(b'0' + tag);
    Service {
        id,
        service_id: format!("svc-{}", tag),
        name: name.to_string(),
        service_category: category.to_vec(),
        price: "100".to_string(),
        rating: "4.5".to_string(),
        description: format!("about {}", name),
        icon: icon.to_string(),
        color: "#fff".to_string(),
    }
}

#[test]
fn categories_group_alphabetically_with_services_in_store_order() {
    let services = vec![
        catalog_service(1, b"plumbing", "Tap repair", "tap.png"),
        catalog_service(2, b"electrical", "Wiring", "wire.png"),
        catalog_service(3, b"plumbing", "Drain cleaning", "drain.png"),
        catalog_service(4, b"carpentry", "Shelving", "shelf.png"),
    ];
    let grouped = group_services_by_category(&services);
    let names: Vec<&[u8]> = grouped.iter().map(|c| c.name.as_slice()).collect();
    assert_eq!(names, vec![&b"carpentry"[..], &b"electrical"[..], &b"plumbing"[..]]);

    let plumbing = &grouped[2];
    assert_eq!(plumbing.id, b"plumbing".to_vec());
    // the first plumbing service's icon represents the category
    assert_eq!(plumbing.icon, Some("tap.png".to_string()));
    let sub_names: Vec<&str> = plumbing.subcategories.iter().map(|s| s.name.as_str()).collect();
    assert_eq!(sub_names, vec!["Tap repair", "Drain cleaning"]);
    assert_eq!(
        plumbing.subcategories[1].description,
        Some("about Drain cleaning".to_string())
    );
}

#[test]
fn grouping_an_empty_catalogue_is_empty() {
    let grouped = group_services_by_category(&Vec::new());
    assert!(grouped.is_empty());
}

#[test]
fn subcategories_of_a_category_or_not_found() {
    let services = vec![
        catalog_service(1, b"plumbing", "Tap repair", "tap.png"),
        catalog_service(2, b"electrical", "Wiring", "wire.png"),
    ];
    let subs = get_subcategories(&services, b"plumbing").unwrap();
    assert_eq!(subs.len(), 1);
    assert_eq!(subs[0].name, "Tap repair".to_string());
    let err = match get_subcategories(&services, b"gardening") {
        Err(e) => e,
        Ok(_) => panic!("an unknown category must be refused"),
    };
    assert_eq!(err.status, STATUS_NOT_FOUND);
}

#[test]
fn category_records_get_defaults() {
    let dto = CreateCategoryDto {
        name: "Plumbing".to_string(),
        description: None,
        icon: None,
        order: None,
        is_active: None,
    };
    let c = new_category(dto, 42);
    assert!(c.id.is_none());
    assert!(c.is_active);
    assert_eq!(c.order, 0);
    assert_eq!(c.created_at, 42);
}

#[test]
fn subcategory_parent_resolution_follows_the_reference_shape() {
    // a 24-character reference must be a hex id, normalized to lowercase
    match resolve_subcategory_parent(b"0123456789ABCDEF01234567", None).unwrap() {
        ParentResolution::ById(id) => assert_eq!(id, b"0123456789abcdef01234567".to_vec()),
        _ => panic!("a well-formed id must be used as given"),
    }
    let err = match resolve_subcategory_parent(b"0123456789ABCDEF0123456X", None) {
        Err(e) => e,
        Ok(_) => panic!("a malformed 24-character id must be refused"),
    };
    assert_eq!(err.status, STATUS_BAD_REQUEST);

    // any other text names a category
    let dto = CreateCategoryDto {
        name: "Plumbing".to_string(),
        description: None,
        icon: None,
        order: None,
        is_active: None,
    };
    let mut existing: MainCategory = new_category(dto, 0);
    existing.id = Some(b"00000000000000000000aaaa".to_vec());
    match resolve_subcategory_parent(b"Plumbing", Some(&existing)).unwrap() {
        ParentResolution::Existing(id) => assert_eq!(id, b"00000000000000000000aaaa".to_vec()),
        _ => panic!("an existing category must be reused"),
    }
    match resolve_subcategory_parent(b"Plumbing", None).unwrap() {
        ParentResolution::CreateNew => {}
        _ => panic!("an unknown name must ask for a new category"),
    }
}

#[test]
fn subcategory_records_attach_to_their_parent() {
    let dto = CreateSubcategoryDto {
        main_category_id: b"Plumbing".to_vec(),
        name: "Tap repair".to_string(),
        description: None,
        order: Some(3),
        is_active: None,
    };
    let s = new_subcategory(dto, b"00000000000000000000aaaa".to_vec(), 99);
    assert_eq!(s.main_category_id, b"00000000000000000000aaaa".to_vec());
    assert_eq!(s.order, 3);
    assert!(s.is_active);
}

#[test]
fn category_edits_replace_only_the_given_fields() {
    let dto = CreateCategoryDto {
        name: "Plumbing".to_string(),
        description: Some("pipes".to_string()),
        icon: None,
        order: None,
        is_active: None,
    };
    let mut c = new_category(dto, 1);
    let edit = CreateCategoryDto {
        name: "Plumbing & Drains".to_string(),
        description: None,
        icon: Some("pipe.png".to_string()),
        order: Some(2),
        is_active: Some(false),
    };
    mento_core::catalog::apply_category_update(&mut c, edit, 9);
    assert_eq!(c.name, "Plumbing & Drains".to_string());
    assert_eq!(c.description, Some("pipes".to_string()));
    assert_eq!(c.icon, Some("pipe.png".to_string()));
    assert_eq!(c.order, 2);
    assert!(!c.is_active);
    assert_eq!(c.updated_at, 9);
    assert_eq!(c.created_at, 1);
}
