use std::path::Path;
use message_bridge_rs::media::{cache_file_name, get_mine_type_ext};
use message_bridge_rs::translate::quote_lines;

#[test]
fn main_test() -> Result<(), Box<dyn std::error::Error>> {
    Ok(())
}

#[test]
fn test_regex_test_mirai_send_group_message() {
    let url = "https://cdn.discordapp.com/avatars/724827488588660837/71919445a77c9076e3915da81028a305.webp?size=1024";
    let r = url.replace(".webp?size=1024", ".png?size=30");
    assert!(r.ends_with(".png?size=30"));
}

#[test]
fn test_regex_test2() {
    let text = r#"test qq 1 @[DC] 6uopdong#4700你看看@[DC] rabbitkiller#7372"#.to_string();
    let splits: Vec<&str> = text.split(" ").collect();
    let mut reply_content: Vec<String> = vec![];
    for sp in splits {
        reply_content.push(format!("> {}\n", sp));
    }
    let mut content = vec![];
    content.push("测试看看".to_string());
    reply_content.append(&mut content);
    println!("{:?}", reply_content);
}

#[test]
fn test_path() {
    let name = "23403b7883ae191a770a022e5d30b221";
    let ext = ".jpe";
    println!("{}{}", name, ext);
    let a = Path::new("cache").join("config.json");
    println!("{:?}", a);
}

#[test]
fn test_path2() {
    let path = Path::new("cache").join("xxx.jpe");
    println!("1: {:?}", path);
    let path = path.to_str().unwrap().to_string();
    println!("2: {:?}", path);
    let path = Path::new(&path);
    println!("3: {:?}", path);

    let path = "cache\\831b2596d4466add31064ea593811ccc.jpe";
    let path = Path::new(path);
    println!("{:?}", path);
    let path = &"cache\\831b2596d4466add31064ea593811ccc.jpe".to_string();
    let path = Path::new(path);
    println!("{:?}", path);
}

#[test]
fn utils_test2() {
    println!("{:?}", "zhangsan");
    println!("{}", "zhangsan");
}

#[test]
fn test3() {
    let r = "@rabbitBot2".strip_prefix("@").unwrap();
    println!("{:?}", r);
    assert_eq!(r, "rabbitBot2");
}

#[test]
fn test4() {
    let ext = get_mine_type_ext("image/jpeg");
    println!("Some: {}", ext);
    assert_eq!(ext, ".jpg");
}

#[test]
fn mime_extension_of_other_types() {
    assert_eq!(get_mine_type_ext("image/png"), ".png");
    assert_eq!(get_mine_type_ext("not a type"), "");
    let e = get_mine_type_ext("application/x-made-up-kind");
    assert_eq!(e, ".x-made-up-kind");
}

#[test]
fn cache_file_name_uses_md5_of_url() {
    assert_eq!(
        cache_file_name("http://example.com/a.png", ".png"),
        "cache/b876851593b9e119ed73f38561576bda.png"
    );
}

#[test]
fn quoted_lines_keep_every_piece() {
    let v = quote_lines(&"a\nb\n".to_string());
    assert_eq!(v, vec!["> a\n".to_string(), "> b\n".to_string(), "> \n".to_string()]);
}
