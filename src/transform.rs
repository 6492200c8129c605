use vstd::prelude::*;
use vstd::string::*;
use crate::text::{contains_text, occurs_in, same_text};

verus! {

pub const PHP_RUST_0: &'static str = "use std::fs;\nfn main() {\n";

pub const PHP_RUST_1: &'static str = "    let source_path = \"input.txt\";\n    let target_path = \"uploads/input.txt\";\n    if fs::metadata(source_path).is_ok() {\n        if fs::copy(source_path, target_path).is_ok() {\n            println!(\"Uploaded {} to {}\", source_path, target_path);\n        } else {\n            println!(\"Upload failed\");\n        }\n    } else {\n        println!(\"File not found: {}\", source_path);\n    }\n";

pub const CLOSE_BLOCK: &'static str = "}\n";

pub const JS_RUST_0: &'static str = "use tokio::time::{sleep, Duration};\n#[tokio::main]\nasync fn main() {\n";

pub const JS_RUST_1: &'static str = "    tokio::spawn(async move {\n        sleep(Duration::from_millis(100)).await;\n        tokio::spawn(async move {\n            sleep(Duration::from_millis(100)).await;\n            println!(\"Deep\");\n        });\n    });\n    sleep(Duration::from_millis(300)).await;\n";

pub const PYTHON_RUST_0: &'static str = "use tch::{Tensor, nn};\nuse tokio::time::{sleep, Duration};\n#[tokio::main]\nasync fn main() {\n";

pub const PYTHON_RUST_1: &'static str = "    tokio::spawn(async move {\n        sleep(Duration::from_millis(100)).await;\n        println!(\"Async\");\n    });\n    sleep(Duration::from_millis(200)).await;\n";

pub const PYTHON_RUST_2: &'static str = "    let matrix1 = Tensor::of_slice(&[1.0, 2.0, 3.0, 4.0]).view([2, 2]);\n    let matrix2 = Tensor::of_slice(&[5.0, 6.0, 7.0, 8.0]).view([2, 2]);\n    let product = matrix1.matmul(&matrix2);\n    println!(\"{:?}\", product);\n";

pub const GO_RUST_0: &'static str = "fn main() {\n";

pub const GO_RUST_1: &'static str = "    println!(\"Kubernetes node started\");\n";

pub const CPP_RUST_0: &'static str = "#[derive(Debug)]\nstruct Vector3D { x: f64, y: f64, z: f64 }\nfn add_vectors(v1: Vector3D, v2: Vector3D) -> Vector3D {\n    Vector3D { x: v1.x + v2.x, y: v1.y + v2.y, z: v1.z + v2.z }\n}\nfn main() {\n";

pub const CPP_RUST_1: &'static str = "    let v1 = Vector3D { x: 1.0, y: 2.0, z: 3.0 };\n    let v2 = Vector3D { x: 4.0, y: 5.0, z: 6.0 };\n    let result = add_vectors(v1, v2);\n    println!(\"Result: {}, {}, {}\", result.x, result.y, result.z);\n";

pub const PHP_PYTHON_0: &'static str = "import os\n\ndef upload_file(source_path, target_path):\n    if os.path.exists(source_path):\n        os.makedirs(os.path.dirname(target_path), exist_ok=True)\n        with open(source_path, 'rb') as src, open(target_path, 'wb') as dst:\n            dst.write(src.read())\n        print(f\"Uploaded {source_path} to {target_path}\")\n    else:\n        print(f\"File not found: {source_path}\")\n\nif __name__ == \"__main__\":\n    upload_file(\"input.txt\", \"uploads/input.txt\")\n";

pub const JS_PYTHON_0: &'static str = "import watchdog.events\nimport watchdog.observers\nclass Handler(watchdog.events.FileSystemEventHandler):\n    def on_any_event(self, event):\n        print(f\"{event.src_path} changed: {event.event_type}\")\n\nif __name__ == \"__main__\":\n    from time import sleep\n    observer = watchdog.observers.Observer()\n    observer.schedule(Handler(), path=\"input.txt\")\n    observer.start()\n    print(\"Watching input.txt...\")\n    sleep(2)\n    observer.stop()\n    observer.join()\n";

pub const PYTHON_JS_0: &'static str = "const tf = require('@tensorflow/tfjs');\nasync function main() {\n    const matrix1 = tf.tensor2d([[1, 2], [3, 4]]);\n    const matrix2 = tf.tensor2d([[5, 6], [7, 8]]);\n    const product = matrix1.matMul(matrix2);\n    console.log(await product.array());\n}\nmain();\n";

pub const GO_JS_0: &'static str = "console.log(\"Kubernetes node started\");\n";

pub const CPP_JS_0: &'static str = "class Vector3D {\n    constructor(x, y, z) {\n        this.x = x;\n        this.y = y;\n        this.z = z;\n    }\n}\nfunction addVectors(v1, v2) {\n    return new Vector3D(v1.x + v2.x, v1.y + v2.y, v1.z + v2.z);\n}\nconst v1 = new Vector3D(1, 2, 3);\nconst v2 = new Vector3D(4, 5, 6);\nconst result = addVectors(v1, v2);\nconsole.log(`Result: ${result.x}, ${result.y}, ${result.z}`);\n";

pub const PHP_JAVA_0: &'static str = "import java.io.*; import java.nio.file.*;\npublic class FileUploader {\n    public static void main(String[] args) {\n        String sourcePath = \"input.txt\";\n        String targetPath = \"uploads/input.txt\";\n        File source = new File(sourcePath);\n        if (source.exists()) {\n            try {\n                Files.copy(source.toPath(), new File(targetPath).toPath(), StandardCopyOption.REPLACE_EXISTING);\n                System.out.println(\"Uploaded \" + sourcePath + \" to \" + targetPath);\n            } catch (IOException e) {\n                System.out.println(\"Upload failed\");\n            }\n        } else {\n            System.out.println(\"File not found: \" + sourcePath);\n        }\n    }\n}\n";

pub const JS_JAVA_0: &'static str = "import java.nio.file.*;\nimport java.util.concurrent.*;\npublic class FileWatcher {\n    public static void main(String[] args) throws Exception {\n        WatchService watcher = FileSystems.getDefault().newWatchService();\n        Path dir = Paths.get(\".\");\n        dir.register(watcher, StandardWatchEventKinds.ENTRY_MODIFY);\n        System.out.println(\"Watching input.txt...\");\n        ScheduledExecutorService executor = Executors.newSingleThreadScheduledExecutor();\n        executor.schedule(() -> System.exit(0), 2, TimeUnit.SECONDS);\n        while (true) {\n            WatchKey key = watcher.take();\n            for (WatchEvent<?> event : key.pollEvents()) {\n                System.out.println(\"input.txt changed: \" + event.kind());\n            }\n            key.reset();\n        }\n    }\n}\n";

pub const PYTHON_JAVA_0: &'static str = "import org.tensorflow.*;\npublic class MatrixMath {\n    public static void main(String[] args) {\n        try (Graph g = new Graph(); Session s = new Session(g)) {\n            float[][] m1 = {{1, 2}, {3, 4}};\n            float[][] m2 = {{5, 6}, {7, 8}};\n            Tensor<?> t1 = Tensor.create(m1);\n            Tensor<?> t2 = Tensor.create(m2);\n            g.opBuilder(\"MatMul\", \"MatMul\").addInput(t1).addInput(t2).build();\n            Tensor<?> output = s.runner().fetch(\"MatMul\").run().get(0);\n            float[][] result = output.copyTo(new float[2][2]);\n            System.out.println(\"[[\" + result[0][0] + \", \" + result[0][1] + \"], [\" + result[1][0] + \", \" + result[1][1] + \"]]\");\n        }\n    }\n}\n";

pub const GO_JAVA_0: &'static str = "public class Logger {\n    public static void main(String[] args) {\n        System.out.println(\"Kubernetes node started\");\n    }\n}\n";

pub const CPP_JAVA_0: &'static str = "public class Vector3D {\n    double x, y, z;\n    Vector3D(double x, double y, double z) {\n        this.x = x;\n        this.y = y;\n        this.z = z;\n    }\n    static Vector3D addVectors(Vector3D v1, Vector3D v2) {\n        return new Vector3D(v1.x + v2.x, v1.y + v2.y, v1.z + v2.z);\n    }\n    public static void main(String[] args) {\n        Vector3D v1 = new Vector3D(1, 2, 3);\n        Vector3D v2 = new Vector3D(4, 5, 6);\n        Vector3D result = addVectors(v1, v2);\n        System.out.println(\"Result: \" + result.x + \", \" + result.y + \", \" + result.z);\n    }\n}\n";


/// The rust that `transform_php_to_rust` writes for php code.
pub open spec fn transform_php_to_rust_text(code: Seq<char>) -> Seq<char> {
    PHP_RUST_0@
        + (if occurs_in(code, "uploadFile"@) { PHP_RUST_1@ } else { seq![] })
        + CLOSE_BLOCK@
}

/// The rust that `transform_js_to_rust` writes for javascript code.
pub open spec fn transform_js_to_rust_text(code: Seq<char>) -> Seq<char> {
    JS_RUST_0@
        + (if occurs_in(code, "setTimeout"@) { JS_RUST_1@ } else { seq![] })
        + CLOSE_BLOCK@
}

/// The rust that `transform_python_to_rust` writes for python code.
pub open spec fn transform_python_to_rust_text(code: Seq<char>) -> Seq<char> {
    PYTHON_RUST_0@
        + (if occurs_in(code, "asyncio"@) { PYTHON_RUST_1@ } else { seq![] })
        + (if occurs_in(code, "tf.matmul"@) { PYTHON_RUST_2@ } else { seq![] })
        + CLOSE_BLOCK@
}

/// The rust that `transform_go_to_rust` writes for go code.
pub open spec fn transform_go_to_rust_text(code: Seq<char>) -> Seq<char> {
    GO_RUST_0@
        + (if occurs_in(code, "log.Println"@) { GO_RUST_1@ } else { seq![] })
        + CLOSE_BLOCK@
}

/// The rust that `transform_cpp_to_rust` writes for cpp code.
pub open spec fn transform_cpp_to_rust_text(code: Seq<char>) -> Seq<char> {
    CPP_RUST_0@
        + (if occurs_in(code, "addVectors"@) { CPP_RUST_1@ } else { seq![] })
        + CLOSE_BLOCK@
}

/// The python that `transform_php_to_python` writes for php code.
pub open spec fn transform_php_to_python_text(code: Seq<char>) -> Seq<char> {
    PHP_PYTHON_0@
}

/// The python that `transform_js_to_python` writes for javascript code.
pub open spec fn transform_js_to_python_text(code: Seq<char>) -> Seq<char> {
    JS_PYTHON_0@
}

/// The javascript that `transform_python_to_js` writes for python code.
pub open spec fn transform_python_to_js_text(code: Seq<char>) -> Seq<char> {
    PYTHON_JS_0@
}

/// The javascript that `transform_go_to_js` writes for go code.
pub open spec fn transform_go_to_js_text(code: Seq<char>) -> Seq<char> {
    GO_JS_0@
}

/// The javascript that `transform_cpp_to_js` writes for cpp code.
pub open spec fn transform_cpp_to_js_text(code: Seq<char>) -> Seq<char> {
    CPP_JS_0@
}

/// The java that `transform_php_to_java` writes for php code.
pub open spec fn transform_php_to_java_text(code: Seq<char>) -> Seq<char> {
    PHP_JAVA_0@
}

/// The java that `transform_js_to_java` writes for javascript code.
pub open spec fn transform_js_to_java_text(code: Seq<char>) -> Seq<char> {
    JS_JAVA_0@
}

/// The java that `transform_python_to_java` writes for python code.
pub open spec fn transform_python_to_java_text(code: Seq<char>) -> Seq<char> {
    PYTHON_JAVA_0@
}

/// The java that `transform_go_to_java` writes for go code.
pub open spec fn transform_go_to_java_text(code: Seq<char>) -> Seq<char> {
    GO_JAVA_0@
}

/// The java that `transform_cpp_to_java` writes for cpp code.
pub open spec fn transform_cpp_to_java_text(code: Seq<char>) -> Seq<char> {
    CPP_JAVA_0@
}

pub fn transform_php_to_rust(code: &str) -> (r: String)
    ensures
        r@ == transform_php_to_rust_text(code@),
{
    let mut r = String::from_str(PHP_RUST_0);
    if contains_text(code, "uploadFile") {
        r.append(PHP_RUST_1);
    }
    r.append(CLOSE_BLOCK);
    proof {
        assert(r@ =~= transform_php_to_rust_text(code@));
    }
    r
}

pub fn transform_js_to_rust(code: &str) -> (r: String)
    ensures
        r@ == transform_js_to_rust_text(code@),
{
    let mut r = String::from_str(JS_RUST_0);
    if contains_text(code, "setTimeout") {
        r.append(JS_RUST_1);
    }
    r.append(CLOSE_BLOCK);
    proof {
        assert(r@ =~= transform_js_to_rust_text(code@));
    }
    r
}

pub fn transform_python_to_rust(code: &str) -> (r: String)
    ensures
        r@ == transform_python_to_rust_text(code@),
{
    let mut r = String::from_str(PYTHON_RUST_0);
    if contains_text(code, "asyncio") {
        r.append(PYTHON_RUST_1);
    }
    if contains_text(code, "tf.matmul") {
        r.append(PYTHON_RUST_2);
    }
    r.append(CLOSE_BLOCK);
    proof {
        assert(r@ =~= transform_python_to_rust_text(code@));
    }
    r
}

pub fn transform_go_to_rust(code: &str) -> (r: String)
    ensures
        r@ == transform_go_to_rust_text(code@),
{
    let mut r = String::from_str(GO_RUST_0);
    if contains_text(code, "log.Println") {
        r.append(GO_RUST_1);
    }
    r.append(CLOSE_BLOCK);
    proof {
        assert(r@ =~= transform_go_to_rust_text(code@));
    }
    r
}

pub fn transform_cpp_to_rust(code: &str) -> (r: String)
    ensures
        r@ == transform_cpp_to_rust_text(code@),
{
    let mut r = String::from_str(CPP_RUST_0);
    if contains_text(code, "addVectors") {
        r.append(CPP_RUST_1);
    }
    r.append(CLOSE_BLOCK);
    proof {
        assert(r@ =~= transform_cpp_to_rust_text(code@));
    }
    r
}

pub fn transform_php_to_python(code: &str) -> (r: String)
    ensures
        r@ == transform_php_to_python_text(code@),
{
    let mut r = String::from_str(PHP_PYTHON_0);
    proof {
        assert(r@ =~= transform_php_to_python_text(code@));
    }
    r
}

pub fn transform_js_to_python(code: &str) -> (r: String)
    ensures
        r@ == transform_js_to_python_text(code@),
{
    let mut r = String::from_str(JS_PYTHON_0);
    proof {
        assert(r@ =~= transform_js_to_python_text(code@));
    }
    r
}

pub fn transform_python_to_js(code: &str) -> (r: String)
    ensures
        r@ == transform_python_to_js_text(code@),
{
    let mut r = String::from_str(PYTHON_JS_0);
    proof {
        assert(r@ =~= transform_python_to_js_text(code@));
    }
    r
}

pub fn transform_go_to_js(code: &str) -> (r: String)
    ensures
        r@ == transform_go_to_js_text(code@),
{
    let mut r = String::from_str(GO_JS_0);
    proof {
        assert(r@ =~= transform_go_to_js_text(code@));
    }
    r
}

pub fn transform_cpp_to_js(code: &str) -> (r: String)
    ensures
        r@ == transform_cpp_to_js_text(code@),
{
    let mut r = String::from_str(CPP_JS_0);
    proof {
        assert(r@ =~= transform_cpp_to_js_text(code@));
    }
    r
}

pub fn transform_php_to_java(code: &str) -> (r: String)
    ensures
        r@ == transform_php_to_java_text(code@),
{
    let mut r = String::from_str(PHP_JAVA_0);
    proof {
        assert(r@ =~= transform_php_to_java_text(code@));
    }
    r
}

pub fn transform_js_to_java(code: &str) -> (r: String)
    ensures
        r@ == transform_js_to_java_text(code@),
{
    let mut r = String::from_str(JS_JAVA_0);
    proof {
        assert(r@ =~= transform_js_to_java_text(code@));
    }
    r
}

pub fn transform_python_to_java(code: &str) -> (r: String)
    ensures
        r@ == transform_python_to_java_text(code@),
{
    let mut r = String::from_str(PYTHON_JAVA_0);
    proof {
        assert(r@ =~= transform_python_to_java_text(code@));
    }
    r
}

pub fn transform_go_to_java(code: &str) -> (r: String)
    ensures
        r@ == transform_go_to_java_text(code@),
{
    let mut r = String::from_str(GO_JAVA_0);
    proof {
        assert(r@ =~= transform_go_to_java_text(code@));
    }
    r
}

pub fn transform_cpp_to_java(code: &str) -> (r: String)
    ensures
        r@ == transform_cpp_to_java_text(code@),
{
    let mut r = String::from_str(CPP_JAVA_0);
    proof {
        assert(r@ =~= transform_cpp_to_java_text(code@));
    }
    r
}

/// What the transformation service makes of `code` when asked to turn `source`
/// code into `target` code; `None` when it knows no mapping for the pair.
pub open spec fn translation(source: Seq<char>, target: Seq<char>, code: Seq<char>) -> Option<Seq<char>> {
    if source == "php"@ && target == "rust"@ {
        Some(transform_php_to_rust_text(code))
    } else
    if source == "javascript"@ && target == "rust"@ {
        Some(transform_js_to_rust_text(code))
    } else
    if source == "python"@ && target == "rust"@ {
        Some(transform_python_to_rust_text(code))
    } else
    if source == "go"@ && target == "rust"@ {
        Some(transform_go_to_rust_text(code))
    } else
    if source == "cpp"@ && target == "rust"@ {
        Some(transform_cpp_to_rust_text(code))
    } else
    if source == "php"@ && target == "python"@ {
        Some(transform_php_to_python_text(code))
    } else
    if source == "javascript"@ && target == "python"@ {
        Some(transform_js_to_python_text(code))
    } else
    if source == "python"@ && target == "javascript"@ {
        Some(transform_python_to_js_text(code))
    } else
    if source == "go"@ && target == "javascript"@ {
        Some(transform_go_to_js_text(code))
    } else
    if source == "cpp"@ && target == "javascript"@ {
        Some(transform_cpp_to_js_text(code))
    } else
    if source == "php"@ && target == "java"@ {
        Some(transform_php_to_java_text(code))
    } else
    if source == "javascript"@ && target == "java"@ {
        Some(transform_js_to_java_text(code))
    } else
    if source == "python"@ && target == "java"@ {
        Some(transform_python_to_java_text(code))
    } else
    if source == "go"@ && target == "java"@ {
        Some(transform_go_to_java_text(code))
    } else
    if source == "cpp"@ && target == "java"@ {
        Some(transform_cpp_to_java_text(code))
    } else {
        None
    }
}

/// Turns `source` code into `target` code from a fixed set of templates.
pub fn translate(source: &str, target: &str, code: &str) -> (r: Option<String>)
    ensures
        r matches Some(t) ==> translation(source@, target@, code@) == Some(t@),
        r is None ==> translation(source@, target@, code@) is None,
{
    if same_text(source, "php") && same_text(target, "rust") {
        return Some(transform_php_to_rust(code));
    }
    if same_text(source, "javascript") && same_text(target, "rust") {
        return Some(transform_js_to_rust(code));
    }
    if same_text(source, "python") && same_text(target, "rust") {
        return Some(transform_python_to_rust(code));
    }
    if same_text(source, "go") && same_text(target, "rust") {
        return Some(transform_go_to_rust(code));
    }
    if same_text(source, "cpp") && same_text(target, "rust") {
        return Some(transform_cpp_to_rust(code));
    }
    if same_text(source, "php") && same_text(target, "python") {
        return Some(transform_php_to_python(code));
    }
    if same_text(source, "javascript") && same_text(target, "python") {
        return Some(transform_js_to_python(code));
    }
    if same_text(source, "python") && same_text(target, "javascript") {
        return Some(transform_python_to_js(code));
    }
    if same_text(source, "go") && same_text(target, "javascript") {
        return Some(transform_go_to_js(code));
    }
    if same_text(source, "cpp") && same_text(target, "javascript") {
        return Some(transform_cpp_to_js(code));
    }
    if same_text(source, "php") && same_text(target, "java") {
        return Some(transform_php_to_java(code));
    }
    if same_text(source, "javascript") && same_text(target, "java") {
        return Some(transform_js_to_java(code));
    }
    if same_text(source, "python") && same_text(target, "java") {
        return Some(transform_python_to_java(code));
    }
    if same_text(source, "go") && same_text(target, "java") {
        return Some(transform_go_to_java(code));
    }
    if same_text(source, "cpp") && same_text(target, "java") {
        return Some(transform_cpp_to_java(code));
    }
    None
}

} // verus!
