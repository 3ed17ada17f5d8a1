//! Project templates: the templates on offer, their texts, and the
//! substitution of their placeholders.

use vstd::prelude::*;
use crate::error::{Error, Result};
use crate::text::{
    owned, concat2, concat3, push_str, str_eq, views, find, chars_of, find_seq_from, string_of,
    occurs_at, find_from, lemma_find_from_some,
};

verus! {

/// A template on offer.
#[derive(Debug, Clone)]
pub struct TemplateInfo {
    pub name: String,
    pub description: String,
}

/// Names and descriptions of the templates, in order.
pub open spec fn templates() -> Seq<(Seq<char>, Seq<char>)> {
    seq![
        ("lib"@, "基础 Java 库"@),
        ("cli"@, "命令行工具"@),
        ("api"@, "REST API 服务"@),
        ("web"@, "Web 应用"@),
    ]
}

/// The templates on offer.
pub fn list_templates() -> (r: Vec<TemplateInfo>)
    ensures
        r@.map_values(|t: TemplateInfo| (t.name@, t.description@)) == templates(),
{
    let mut v: Vec<TemplateInfo> = Vec::new();
    v.push(TemplateInfo { name: owned("lib"), description: owned("基础 Java 库") });
    v.push(TemplateInfo { name: owned("cli"), description: owned("命令行工具") });
    v.push(TemplateInfo { name: owned("api"), description: owned("REST API 服务") });
    v.push(TemplateInfo { name: owned("web"), description: owned("Web 应用") });
    assert(v@.map_values(|t: TemplateInfo| (t.name@, t.description@)) =~= templates());
    v
}

/// The two texts of a template.
pub struct TemplateContent {
    pub jex_toml: &'static str,
    pub main_java: &'static str,
}

/// The texts (`jex.toml`, `Main.java`) of a template, with its
/// `{{project_name}}` and `{{package_name}}` placeholders.
pub open spec fn template_texts(name: Seq<char>) -> Option<(Seq<char>, Seq<char>)> {
    if name == "lib"@ {
        Some(("# {{project_name}} - Java Library\n\n[project]\nname = \"{{project_name}}\"\n"@, "package {{package_name}};\n\n/**\n * {{project_name}} - Java Library\n */\npublic class Main {\n    public static void main(String[] args) {\n        System.out.println(\"Hello from {{project_name}}!\");\n    }\n}\n"@))
    } else if name == "cli"@ {
        Some(("# {{project_name}} - CLI Tool\n\n[project]\nname = \"{{project_name}}\"\n"@, "package {{package_name}};\n\n/**\n * {{project_name}} - CLI Tool\n */\npublic class Main {\n    public static void main(String[] args) {\n        if (args.length > 0) {\n            System.out.println(\"Hello, \" + args[0] + \"!\");\n        } else {\n            System.out.println(\"Hello from {{project_name}}!\");\n        }\n    }\n}\n"@))
    } else if name == "api"@ {
        Some(("# {{project_name}} - REST API\n\n[project]\nname = \"{{project_name}}\"\n\n[dependencies]\n\"com.sun.net.httpserver:http:1.0\"\n"@, "package {{package_name}};\n\nimport com.sun.net.httpserver.HttpServer;\nimport com.sun.net.httpserver.HttpHandler;\nimport com.sun.net.httpserver.HttpExchange;\nimport java.io.IOException;\nimport java.io.OutputStream;\n\n/**\n * {{project_name}} - REST API Server\n */\npublic class Main {\n    public static void main(String[] args) throws IOException {\n        HttpServer server = HttpServer.create(new java.net.InetSocketAddress(8080), 0);\n        server.createContext(\"/\", new RootHandler());\n        server.setExecutor(null);\n        server.start();\n        System.out.println(\"Server started on port 8080\");\n    }\n\n    static class RootHandler implements HttpHandler {\n        @Override\n        public void handle(HttpExchange exchange) throws IOException {\n            String response = \"{\\\"message\\\": \\\"Hello from {{project_name}}!\\\"}\";\n            exchange.getResponseHeaders().set(\"Content-Type\", \"application/json\");\n            exchange.sendResponseHeaders(200, response.length());\n            OutputStream os = exchange.getResponseBody();\n            os.write(response.getBytes());\n            os.close();\n        }\n    }\n}\n"@))
    } else if name == "web"@ {
        Some(("# {{project_name}} - Web Application\n\n[project]\nname = \"{{project_name}}\"\n"@, "package {{package_name}};\n\nimport com.sun.net.httpserver.HttpServer;\nimport com.sun.net.httpserver.HttpHandler;\nimport com.sun.net.httpserver.HttpExchange;\nimport java.io.IOException;\nimport java.io.OutputStream;\n\n/**\n * {{project_name}} - Web Application\n */\npublic class Main {\n    public static void main(String[] args) throws IOException {\n        HttpServer server = HttpServer.create(new java.net.InetSocketAddress(8080), 0);\n        server.createContext(\"/\", new RootHandler());\n        server.setExecutor(null);\n        server.start();\n        System.out.println(\"Web app started on http://localhost:8080\");\n    }\n\n    static class RootHandler implements HttpHandler {\n        @Override\n        public void handle(HttpExchange exchange) throws IOException {\n            String html = \"<html><body><h1>Hello from {{project_name}}!</h1></body></html>\";\n            exchange.getResponseHeaders().set(\"Content-Type\", \"text/html\");\n            exchange.sendResponseHeaders(200, html.length());\n            OutputStream os = exchange.getResponseBody();\n            os.write(html.getBytes());\n            os.close();\n        }\n    }\n}\n"@))
    } else {
        None
    }
}

/// The texts of template `name`.
pub fn get_template_content(name: &str) -> (r: Result<TemplateContent>)
    ensures
        match r {
            Ok(c) => template_texts(name@) == Some((c.jex_toml@, c.main_java@)),
            Err(e) => template_texts(name@) is None && e.0@ == "未知模板类型: "@ + name@,
        },
{
    if str_eq(name, "lib") {
        Ok(TemplateContent { jex_toml: "# {{project_name}} - Java Library\n\n[project]\nname = \"{{project_name}}\"\n", main_java: "package {{package_name}};\n\n/**\n * {{project_name}} - Java Library\n */\npublic class Main {\n    public static void main(String[] args) {\n        System.out.println(\"Hello from {{project_name}}!\");\n    }\n}\n" })
    } else if str_eq(name, "cli") {
        Ok(TemplateContent { jex_toml: "# {{project_name}} - CLI Tool\n\n[project]\nname = \"{{project_name}}\"\n", main_java: "package {{package_name}};\n\n/**\n * {{project_name}} - CLI Tool\n */\npublic class Main {\n    public static void main(String[] args) {\n        if (args.length > 0) {\n            System.out.println(\"Hello, \" + args[0] + \"!\");\n        } else {\n            System.out.println(\"Hello from {{project_name}}!\");\n        }\n    }\n}\n" })
    } else if str_eq(name, "api") {
        Ok(TemplateContent { jex_toml: "# {{project_name}} - REST API\n\n[project]\nname = \"{{project_name}}\"\n\n[dependencies]\n\"com.sun.net.httpserver:http:1.0\"\n", main_java: "package {{package_name}};\n\nimport com.sun.net.httpserver.HttpServer;\nimport com.sun.net.httpserver.HttpHandler;\nimport com.sun.net.httpserver.HttpExchange;\nimport java.io.IOException;\nimport java.io.OutputStream;\n\n/**\n * {{project_name}} - REST API Server\n */\npublic class Main {\n    public static void main(String[] args) throws IOException {\n        HttpServer server = HttpServer.create(new java.net.InetSocketAddress(8080), 0);\n        server.createContext(\"/\", new RootHandler());\n        server.setExecutor(null);\n        server.start();\n        System.out.println(\"Server started on port 8080\");\n    }\n\n    static class RootHandler implements HttpHandler {\n        @Override\n        public void handle(HttpExchange exchange) throws IOException {\n            String response = \"{\\\"message\\\": \\\"Hello from {{project_name}}!\\\"}\";\n            exchange.getResponseHeaders().set(\"Content-Type\", \"application/json\");\n            exchange.sendResponseHeaders(200, response.length());\n            OutputStream os = exchange.getResponseBody();\n            os.write(response.getBytes());\n            os.close();\n        }\n    }\n}\n" })
    } else if str_eq(name, "web") {
        Ok(TemplateContent { jex_toml: "# {{project_name}} - Web Application\n\n[project]\nname = \"{{project_name}}\"\n", main_java: "package {{package_name}};\n\nimport com.sun.net.httpserver.HttpServer;\nimport com.sun.net.httpserver.HttpHandler;\nimport com.sun.net.httpserver.HttpExchange;\nimport java.io.IOException;\nimport java.io.OutputStream;\n\n/**\n * {{project_name}} - Web Application\n */\npublic class Main {\n    public static void main(String[] args) throws IOException {\n        HttpServer server = HttpServer.create(new java.net.InetSocketAddress(8080), 0);\n        server.createContext(\"/\", new RootHandler());\n        server.setExecutor(null);\n        server.start();\n        System.out.println(\"Web app started on http://localhost:8080\");\n    }\n\n    static class RootHandler implements HttpHandler {\n        @Override\n        public void handle(HttpExchange exchange) throws IOException {\n            String html = \"<html><body><h1>Hello from {{project_name}}!</h1></body></html>\";\n            exchange.getResponseHeaders().set(\"Content-Type\", \"text/html\");\n            exchange.sendResponseHeaders(200, html.length());\n            OutputStream os = exchange.getResponseBody();\n            os.write(html.getBytes());\n            os.close();\n        }\n    }\n}\n" })
    } else {
        Err(Error::new(concat2("未知模板类型: ", name)))
    }
}

/// `s` with every occurrence of the non-empty `p` replaced by `r`, left to
/// right without overlap (`str::replace`).
pub open spec fn replace_all(s: Seq<char>, p: Seq<char>, r: Seq<char>) -> Seq<char>
    decreases s.len(),
{
    if p.len() == 0 {
        s
    } else {
        match find(s, p) {
            Some(i) => if i + p.len() <= s.len() && i >= 0 {
                s.subrange(0, i) + r + replace_all(s.subrange(i + p.len(), s.len() as int), p, r)
            } else {
                s
            },
            None => s,
        }
    }
}

/// Replaces every occurrence of the non-empty `p` in `s` by `r`.
pub fn replace_str(s: &str, p: &str, r: &str) -> (out: String)
    requires
        p@.len() > 0,
    ensures
        out@ == replace_all(s@, p@, r@),
    decreases s@.len(),
{
    let v = chars_of(s);
    let pv = chars_of(p);
    let vn = v.len();
    let pn = pv.len();
    match crate::text::find_seq(&v, &pv) {
        Some(i) => {
            let head = string_of(&v, 0, i);
            let tail = string_of(&v, i + pn, vn);
            let rest = replace_str(tail.as_str(), p, r);
            let mut out = head;
            push_str(&mut out, r);
            push_str(&mut out, rest.as_str());
            out
        },
        None => owned(s),
    }
}

/// Placeholder `{{key}}`.
pub open spec fn placeholder(key: Seq<char>) -> Seq<char> {
    "{{"@ + key + "}}"@
}

/// `content` with the placeholder of each variable replaced by its value,
/// variables taken in order.
pub open spec fn substituted(content: Seq<char>, vars: Seq<(String, String)>) -> Seq<char>
    decreases vars.len(),
{
    if vars.len() == 0 {
        content
    } else {
        replace_all(
            substituted(content, vars.drop_last()),
            placeholder(vars.last().0@),
            vars.last().1@,
        )
    }
}

/// Replaces the placeholder `{{key}}` of each (key, value) by its value.
pub fn replace_variables(content: &str, variables: &Vec<(String, String)>) -> (r: String)
    ensures
        r@ == substituted(content@, variables@),
{
    proof {
        reveal_strlit("{{");
    }
    let mut result = owned(content);
    let mut i: usize = 0;
    assert(variables@.take(0) =~= Seq::<(String, String)>::empty());
    while i < variables.len()
        invariant
            i <= variables@.len(),
            result@ == substituted(content@, variables@.take(i as int)),
            "{{"@.len() == 2,
        decreases variables@.len() - i,
    {
        assert(variables@.take(i + 1).drop_last() =~= variables@.take(i as int));
        assert(variables@.take(i + 1).last() == variables@[i as int]);
        let pat = concat3("{{", variables[i].0.as_str(), "}}");
        result = replace_str(result.as_str(), pat.as_str(), variables[i].1.as_str());
        i += 1;
    }
    assert(variables@.take(i as int) =~= variables@);
    result
}

/// Message for an unknown template name.
pub open spec fn unknown_template_message(name: Seq<char>) -> Seq<char> {
    "未知模板类型: "@ + name + "，可用模板: lib, cli, api, web"@
}

/// The `jex.toml` and `Main.java` of a new project from a template, for a
/// package (`com.example` when none is given); fails on an unknown
/// template.
pub fn project_files(name: &str, template: &str, package: Option<&str>) -> (r: Result<(String, String)>)
    ensures
        match r {
            Ok((toml, java)) => template_texts(template@) is Some && {
                let vars = seq![
                    ("project_name"@, name@),
                    ("package_name"@, match package {
                        Some(p) => p@,
                        None => "com.example"@,
                    }),
                ];
                &&& toml@ == replace_all(
                    replace_all((template_texts(template@)->0).0, placeholder(vars[0].0), vars[0].1),
                    placeholder(vars[1].0),
                    vars[1].1,
                )
                &&& java@ == replace_all(
                    replace_all((template_texts(template@)->0).1, placeholder(vars[0].0), vars[0].1),
                    placeholder(vars[1].0),
                    vars[1].1,
                )
            },
            Err(e) => template_texts(template@) is None && e.0@ == unknown_template_message(
                template@,
            ),
        },
{
    let content = match get_template_content(template) {
        Ok(c) => c,
        Err(_) => {
            return Err(Error::new(concat3("未知模板类型: ", template, "，可用模板: lib, cli, api, web")));
        },
    };
    let package_name = match package {
        Some(p) => p,
        None => "com.example",
    };
    let mut vars: Vec<(String, String)> = Vec::new();
    vars.push((owned("project_name"), owned(name)));
    vars.push((owned("package_name"), owned(package_name)));
    let toml = replace_variables(content.jex_toml, &vars);
    let java = replace_variables(content.main_java, &vars);
    proof {
        reveal_with_fuel(substituted, 3);
        assert(vars@.drop_last().drop_last().len() == 0);
    }
    Ok((toml, java))
}

} // verus!
