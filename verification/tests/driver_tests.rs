use camera_opencv::drivers::{drivers_to_create, plugin_for, DriverInfo};

fn driver(name: &str, plugin: &str) -> DriverInfo {
    DriverInfo { name: name.to_string(), config: String::from("{}"), plugin: plugin.to_string() }
}

#[test]
fn plugin_for_finds_the_last_plugin_of_a_name() {
    let plugins = vec![
        String::from("camera_opencv"),
        String::from("viewer"),
        String::from("camera_opencv"),
    ];
    assert_eq!(plugin_for(&plugins, &String::from("camera_opencv")), Some(2));
    assert_eq!(plugin_for(&plugins, &String::from("viewer")), Some(1));
    assert_eq!(plugin_for(&plugins, &String::from("missing")), None);
    assert_eq!(plugin_for(&Vec::new(), &String::from("viewer")), None);
}

#[test]
fn only_drivers_with_loaded_plugins_are_created() {
    let plugins = vec![String::from("camera_opencv"), String::from("other")];
    let drivers = vec![
        driver("camera", "camera_opencv"),
        driver("ghost", "not_loaded"),
        driver("second", "other"),
        driver("camera", "camera_opencv"),
    ];
    assert_eq!(drivers_to_create(&drivers, &plugins), vec![(0, 0), (2, 1), (3, 0)]);
}

#[test]
fn no_plugins_means_no_drivers() {
    let drivers = vec![driver("camera", "camera_opencv")];
    assert_eq!(drivers_to_create(&drivers, &Vec::new()), Vec::<(usize, usize)>::new());
    assert_eq!(drivers_to_create(&Vec::new(), &vec![String::from("x")]), Vec::<(usize, usize)>::new());
}
