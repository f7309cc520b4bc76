use cleyto_coin::node;
use rand::Rng;
use reqwest::blocking::Client;

fn post_request() -> Result<(), Box<dyn std::error::Error>> {
    let mut rng = rand::thread_rng();
    let message: String = (0..10)
        .map(|_| rng.sample(rand::distributions::Alphanumeric) as char)
        .collect();
    let value: i32 = rng.gen_range(1..=1000);
    let body = format!("{{\"message\": \"{}\", \"value\": {}}}", message, value);

    let client = Client::new();
    let res = client
        .post(format!("http://localhost:{}", node::DEFAULT_PORT))
        .header("Content-Type", "application/json")
        .body(body)
        .send()?;

    assert_eq!(res.status(), 200);

    Ok(())
}

fn get_request() -> Result<(), Box<dyn std::error::Error>> {
    let client = Client::new();
    let res = client
        .get(format!("http://localhost:{}", node::DEFAULT_PORT))
        .send()?;

    assert_eq!(res.status(), 200);
    let _body = res.text()?;

    Ok(())
}

#[test]
fn post_and_get_request() {
    for _ in 0..200 {
        match post_request() {
            Ok(_) => println!("Post successful"),
            Err(_) => println!("Post failed"),
        };
        match get_request() {
            Ok(_) => println!("Get successful"),
            Err(_) => println!("Get failed"),
        };
    }
}
