use vstd::prelude::*;
use vstd::string::StringExecFns;

verus! {

/// The landing page up to the server UUID.
pub open spec fn landing_head() -> Seq<char> {
    "<!DOCTYPE html>\n<html lang=\"en\">\n<head>\n    <meta charset=\"UTF-8\">\n    <meta name=\"viewport\" content=\"width=device-width, initial-scale=1.0\">\n    <title>NodeGet Server Backend</title>\n    <meta name=\"description\" content=\"Next-generation server monitoring and management tools\">\n    <link rel=\"icon\" href=\"https://nodeget.com/logo.png\">\n</head>\n<body>\n    <h1>Welcome to NodeGet</h1>\n    <p>Next-generation server monitoring and management tools</p>\n    <h2>Server</h2>\n    <p>UUID: <span>"@
}

/// The landing page between the server UUID and the version.
pub open spec fn landing_middle() -> Seq<char> {
    "</span></p>\n    <p>Version: <span>"@
}

/// The landing page after the version.
pub open spec fn landing_tail() -> Seq<char> {
    "</span></p>\n    <h2>Useful Links</h2>\n    <ul>\n        <li><a href=\"https://dash.nodeget.com\">Dashboard</a></li>\n        <li><a href=\"https://nodeget.com\">Official Website</a></li>\n        <li><a href=\"https://github.com/nodeseekdev/nodeget\">Github Project</a></li>\n    </ul>\n</body>\n</html>"@
}

/// The HTML landing page served at `/`, showing the server UUID and version.
pub fn render_root_html(serv_uuid: &str, serv_version: &str) -> (r: String)
    ensures
        r@ == landing_head() + serv_uuid@ + landing_middle() + serv_version@ + landing_tail(),
{
    String::from_str(
        "<!DOCTYPE html>\n<html lang=\"en\">\n<head>\n    <meta charset=\"UTF-8\">\n    <meta name=\"viewport\" content=\"width=device-width, initial-scale=1.0\">\n    <title>NodeGet Server Backend</title>\n    <meta name=\"description\" content=\"Next-generation server monitoring and management tools\">\n    <link rel=\"icon\" href=\"https://nodeget.com/logo.png\">\n</head>\n<body>\n    <h1>Welcome to NodeGet</h1>\n    <p>Next-generation server monitoring and management tools</p>\n    <h2>Server</h2>\n    <p>UUID: <span>",
    ).concat(serv_uuid).concat("</span></p>\n    <p>Version: <span>").concat(serv_version).concat(
        "</span></p>\n    <h2>Useful Links</h2>\n    <ul>\n        <li><a href=\"https://dash.nodeget.com\">Dashboard</a></li>\n        <li><a href=\"https://nodeget.com\">Official Website</a></li>\n        <li><a href=\"https://github.com/nodeseekdev/nodeget\">Github Project</a></li>\n    </ul>\n</body>\n</html>",
    )
}

} // verus!
